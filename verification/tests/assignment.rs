use branch_guard::assignment::AssignmentRequest;
use branch_guard::error::DbError;
use branch_guard::models::BranchEmployee;

fn city(name: &str) -> Result<String, String> {
    Ok(name.to_string())
}

#[test]
fn request_asks_for_the_city_of_its_branch() {
    let request = AssignmentRequest::new(7, 3);
    assert_eq!(request.employee_id(), 7);
    assert_eq!(request.branch_id(), 3);
}

#[test]
fn known_city_leads_to_the_conflict_question() {
    let query = AssignmentRequest::new(7, 3).with_city(city("Boston")).unwrap();
    assert_eq!(query.employee_id(), 7);
    assert_eq!(query.branch_id(), 3);
    assert_eq!(query.city(), "Boston");
}

#[test]
fn failed_city_lookup_ends_the_attempt() {
    let failed: Result<String, String> = Err("no such branch".to_string());
    match AssignmentRequest::new(7, 3).with_city(failed) {
        Err(error) => assert_eq!(error, DbError::Sqlx("no such branch".to_string())),
        Ok(_) => panic!("the attempt went on without a city"),
    }
}

#[test]
fn conflict_ends_the_attempt_with_bad_input() {
    let query = AssignmentRequest::new(7, 3).with_city(city("Chicago")).unwrap();
    let answer: Result<Option<bool>, String> = Ok(Some(true));
    match query.with_answer(answer) {
        Err(error) => assert_eq!(error, DbError::BadInput),
        Ok(_) => panic!("an insertion was allowed in spite of a conflict"),
    }
}

#[test]
fn no_conflict_allows_the_insertion() {
    let query = AssignmentRequest::new(7, 3).with_city(city("Boston")).unwrap();
    let answer: Result<Option<bool>, String> = Ok(Some(false));
    let permit = query.with_answer(answer).unwrap();
    assert_eq!(permit.employee_id(), 7);
    assert_eq!(permit.branch_id(), 3);
}

#[test]
fn absent_answer_allows_the_insertion() {
    let query = AssignmentRequest::new(7, 3).with_city(city("Boston")).unwrap();
    let answer: Result<Option<bool>, String> = Ok(None);
    let permit = query.with_answer(answer).unwrap();
    assert_eq!(permit.employee_id(), 7);
    assert_eq!(permit.branch_id(), 3);
}

#[test]
fn failed_conflict_query_ends_the_attempt() {
    let query = AssignmentRequest::new(7, 3).with_city(city("Boston")).unwrap();
    let answer: Result<Option<bool>, String> = Err("timeout".to_string());
    match query.with_answer(answer) {
        Err(error) => assert_eq!(error, DbError::Sqlx("timeout".to_string())),
        Ok(_) => panic!("an insertion was allowed without an answer"),
    }
}

#[test]
fn finished_attempt_returns_the_stored_row() {
    let query = AssignmentRequest::new(7, 3).with_city(city("Boston")).unwrap();
    let answer: Result<Option<bool>, String> = Ok(Some(false));
    let permit = query.with_answer(answer).unwrap();
    let row = BranchEmployee { branch_employee_id: Some(11), employee_id: 7, branch_id: 3 };
    let inserted: Result<BranchEmployee, String> = Ok(row);
    assert_eq!(permit.finish(inserted), Ok(row));
}

#[test]
fn failed_insertion_is_handed_on_with_its_cause() {
    let query = AssignmentRequest::new(7, 3).with_city(city("Boston")).unwrap();
    let answer: Result<Option<bool>, String> = Ok(Some(false));
    let permit = query.with_answer(answer).unwrap();
    let inserted: Result<BranchEmployee, String> = Err("disk full".to_string());
    assert_eq!(permit.finish(inserted), Err(DbError::Sqlx("disk full".to_string())));
}
