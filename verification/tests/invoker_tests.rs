//! Classification and parsing of the update command's captured outcome.

use hookgate::invoker::{classify_output, InvocationError, Updated};

#[test]
fn non_array_output_means_no_updates() {
    let out = b"not json".to_vec();
    let r = classify_output(true, &out).unwrap();
    assert_eq!(r.len(), 0);
}

#[test]
fn empty_output_means_no_updates() {
    let out = Vec::new();
    let r = classify_output(true, &out).unwrap();
    assert_eq!(r.len(), 0);
}

#[test]
fn empty_array_means_no_updates() {
    let out = b"[]".to_vec();
    let r = classify_output(true, &out).unwrap();
    assert_eq!(r.len(), 0);
}

#[test]
fn failed_exit_is_execution_failed() {
    let out = b"[]".to_vec();
    let r = classify_output(false, &out);
    assert_eq!(r.unwrap_err(), InvocationError::ExecutionFailed);
}

#[test]
fn one_record_maps_fields_exactly() {
    let out = "[{\"Unit\":\"container-web.service\",\"Container\":\"4a5b (web)\",\"Image\":\"docker.io/library/nginx:latest\",\"ContainerName\":\"web\",\"ContainerID\":\"4a5b6c\",\"Policy\":\"registry\",\"Updated\":\"pending\"}]".as_bytes().to_vec();
    let r = classify_output(true, &out).unwrap();
    assert_eq!(r.len(), 1);
    assert_eq!(r[0].unit, "container-web.service");
    assert_eq!(r[0].container, "4a5b (web)");
    assert_eq!(r[0].image, "docker.io/library/nginx:latest");
    assert_eq!(r[0].container_name, "web");
    assert_eq!(r[0].container_id, "4a5b6c");
    assert_eq!(r[0].policy, "registry");
    assert_eq!(r[0].updated, Updated::Pending);
}

#[test]
fn two_records_with_whitespace_parse() {
    let out = "[ {\"Unit\" : \"a.service\", \"Container\": \"c1\", \"Image\": \"i1\",\n   \"ContainerName\": \"n1\", \"ContainerID\": \"id1\",   \"Policy\": \"registry\", \"Updated\": \"false\" },\n  {\"Unit\": \"b.service\", \"Container\": \"c2\", \"Image\": \"i2\",   \"ContainerName\": \"n2\", \"ContainerID\": \"id2\",   \"Policy\": \"registry\", \"Updated\": \"pending\" } ]\n".as_bytes().to_vec();
    let r = classify_output(true, &out).unwrap();
    assert_eq!(r.len(), 2);
    assert_eq!(r[0].unit, "a.service");
    assert_eq!(r[0].updated, Updated::False);
    assert_eq!(r[1].unit, "b.service");
    assert_eq!(r[1].updated, Updated::Pending);
}

#[test]
fn array_with_broken_schema_is_parse_failed() {
    let out = b"[{\"Unit\":\"a\"}]".to_vec();
    let r = classify_output(true, &out);
    assert_eq!(r.unwrap_err(), InvocationError::ParseFailed);
}

#[test]
fn array_with_trailing_junk_is_parse_failed() {
    let out = b"[] trailing".to_vec();
    let r = classify_output(true, &out);
    assert_eq!(r.unwrap_err(), InvocationError::ParseFailed);
}

#[test]
fn unknown_updated_value_is_parse_failed() {
    let out = "[{\"Unit\":\"a\",\"Container\":\"c\",\"Image\":\"i\",\"ContainerName\":\"n\",\"ContainerID\":\"d\",\"Policy\":\"registry\",\"Updated\":\"true\"}]".as_bytes().to_vec();
    let r = classify_output(true, &out);
    assert_eq!(r.unwrap_err(), InvocationError::ParseFailed);
}

#[test]
fn stderr_alone_never_changes_a_clean_outcome() {
    let out = b"not json".to_vec();
    let r = classify_output(true, &out).unwrap();
    assert_eq!(r.len(), 0);
}
