use dcm::docker::{
    api_error_message, base_url, inspect_requests, lists_running_containers, logs_error_message,
    stats_targets, container_ids, failure_message, inspect_failure_message,
    inspect_request, is_success, list_output, list_request, logs_query, logs_request,
    operation_requests, request_for, request_headers, socket_missing_message, stats_failure_message,
    stats_request, success_message, Container, ListOutput, Method, Operation,
    DEFAULT_DOCKER_API_VERSION, DEFAULT_DOCKER_SOCKET,
};

fn container(id: &str) -> Container {
    Container {
        id: id.to_string(),
        names: None,
        image: "nginx".to_string(),
        image_id: "sha256:1".to_string(),
        command: "nginx".to_string(),
        created: 0,
        state: "running".to_string(),
        status: "Up".to_string(),
        ports: None,
        labels: None,
        size_rw: None,
        size_root_fs: None,
        host_config: None,
        network_settings: None,
        mounts: None,
    }
}

fn strings(v: &[&str]) -> Vec<String> {
    v.iter().map(|s| s.to_string()).collect()
}

#[test]
fn defaults() {
    assert_eq!(DEFAULT_DOCKER_SOCKET, "/var/run/docker.sock");
    assert_eq!(DEFAULT_DOCKER_API_VERSION, "v1.43");
    assert_eq!(base_url(), "http://unix/v1.43");
    assert_eq!(socket_missing_message("/tmp/x.sock"), "docker socket not found at /tmp/x.sock");
}

#[test]
fn start_stop_restart_remove_requests() {
    let r = request_for(Operation::Start, "abc");
    assert_eq!((r.method, r.path.as_str()), (Method::Post, "/containers/abc/start"));
    let r = request_for(Operation::Stop { timeout: Some(10) }, "abc");
    assert_eq!((r.method, r.path.as_str()), (Method::Post, "/containers/abc/stop?t=10"));
    let r = request_for(Operation::Stop { timeout: None }, "abc");
    assert_eq!(r.path, "/containers/abc/stop");
    let r = request_for(Operation::Restart { timeout: Some(0) }, "abc");
    assert_eq!((r.method, r.path.as_str()), (Method::Post, "/containers/abc/restart?t=0"));
    let r = request_for(Operation::Restart { timeout: None }, "abc");
    assert_eq!(r.path, "/containers/abc/restart");
    let r = request_for(Operation::Remove { force: true, volumes: false }, "abc");
    assert_eq!((r.method, r.path.as_str()), (Method::Delete, "/containers/abc?force=true&v=false"));
}

#[test]
fn one_request_per_id_in_order() {
    let ids = strings(&["a", "b", "c"]);
    let rs = operation_requests(Operation::Remove { force: false, volumes: true }, &ids);
    let paths: Vec<&str> = rs.iter().map(|r| r.path.as_str()).collect();
    assert_eq!(
        paths,
        vec![
            "/containers/a?force=false&v=true",
            "/containers/b?force=false&v=true",
            "/containers/c?force=false&v=true"
        ]
    );
    assert!(operation_requests(Operation::Start, &Vec::new()).is_empty());
}

#[test]
fn read_requests() {
    let r = list_request(true);
    assert_eq!((r.method, r.path.as_str()), (Method::Get, "/containers/json?all=true"));
    assert_eq!(list_request(false).path, "/containers/json?all=false");
    assert_eq!(inspect_request("abc").path, "/containers/abc/json");
    assert_eq!(stats_request("abc").path, "/containers/abc/stats?stream=false");
    let r = logs_request("abc");
    assert_eq!((r.method, r.path.as_str()), (Method::Get, "/containers/abc/logs"));
}

#[test]
fn log_options_as_parameters() {
    let q = logs_query(true, &Some("10".to_string()), &None, &Some("2024".to_string()), false);
    let expected: Vec<(String, String)> = [
        ("follow", "true"),
        ("stdout", "true"),
        ("stderr", "true"),
        ("timestamps", "false"),
        ("tail", "10"),
        ("until", "2024"),
    ]
    .iter()
    .map(|(k, v)| (k.to_string(), v.to_string()))
    .collect();
    assert_eq!(q, expected);
    assert_eq!(logs_query(false, &None, &None, &None, true).len(), 4);
}

#[test]
fn headers_follow_body() {
    assert_eq!(request_headers(false), vec![("Host".to_string(), "localhost".to_string())]);
    assert_eq!(
        request_headers(true),
        vec![
            ("Host".to_string(), "localhost".to_string()),
            ("Content-Type".to_string(), "application/json".to_string())
        ]
    );
}

#[test]
fn success_statuses() {
    assert!(is_success(200));
    assert!(is_success(204));
    assert!(is_success(299));
    assert!(!is_success(199));
    assert!(!is_success(300));
    assert!(!is_success(404));
}

#[test]
fn api_error_text() {
    assert_eq!(
        api_error_message("404 Not Found", "{\"message\":\"no such container\"}"),
        "docker API error: 404 Not Found - {\"message\":\"no such container\"}"
    );
}

#[test]
fn ids_of_containers() {
    let cs = vec![container("one"), container("two")];
    assert_eq!(container_ids(&cs), strings(&["one", "two"]));
    assert!(container_ids(&Vec::new()).is_empty());
}

#[test]
fn list_output_by_format() {
    assert_eq!(list_output("json", true), ListOutput::JsonIds);
    assert_eq!(list_output("json", false), ListOutput::JsonContainers);
    assert_eq!(list_output("table", true), ListOutput::Table { quiet: true });
    assert_eq!(list_output("JSON", false), ListOutput::Table { quiet: false });
}

#[test]
fn outcome_messages() {
    assert_eq!(success_message(Operation::Start, "abc"), "container 'abc' started successfully");
    assert_eq!(
        success_message(Operation::Stop { timeout: None }, "abc"),
        "container 'abc' stopped successfully"
    );
    assert_eq!(
        success_message(Operation::Restart { timeout: Some(1) }, "abc"),
        "container 'abc' restarted successfully"
    );
    assert_eq!(
        success_message(Operation::Remove { force: true, volumes: true }, "abc"),
        "container 'abc' removed successfully"
    );
    assert_eq!(failure_message(Operation::Start, "abc", "boom"), "failed to start container 'abc': boom");
    assert_eq!(
        failure_message(Operation::Stop { timeout: None }, "abc", "boom"),
        "failed to stopped container 'abc': boom"
    );
    assert_eq!(
        failure_message(Operation::Restart { timeout: None }, "abc", "boom"),
        "failed to restarted container 'abc': boom"
    );
    assert_eq!(
        failure_message(Operation::Remove { force: false, volumes: false }, "abc", "boom"),
        "failed to removed container 'abc': boom"
    );
    assert_eq!(inspect_failure_message("abc", "boom"), "error: failed to inspect container 'abc': boom");
    assert_eq!(stats_failure_message("abc", "boom"), "failed to get stats for container 'abc': boom");
}

#[test]
fn log_request_error_text() {
    assert_eq!(
        logs_error_message("404 Not Found", "no such container"),
        "docker api error: 404 Not Found - no such container"
    );
}

#[test]
fn requests_name_their_resource() {
    assert_eq!(request_for(Operation::Stop { timeout: Some(5) }, "abc").resource, "/containers/abc/stop");
    assert_eq!(
        request_for(Operation::Remove { force: true, volumes: true }, "abc").resource,
        "/containers/abc"
    );
    assert_eq!(request_for(Operation::Start, "abc").resource, "/containers/abc/start");
    assert_eq!(list_request(true).resource, "/containers/json");
    assert_eq!(stats_request("abc").resource, "/containers/abc/stats");
    assert_eq!(inspect_request("abc").resource, "/containers/abc/json");
    assert_eq!(logs_request("abc").resource, "/containers/abc/logs");
}

#[test]
fn one_inspection_per_id_in_order() {
    let rs = inspect_requests(&strings(&["b", "a"]));
    let paths: Vec<(Method, &str)> = rs.iter().map(|r| (r.method, r.path.as_str())).collect();
    assert_eq!(paths, vec![(Method::Get, "/containers/b/json"), (Method::Get, "/containers/a/json")]);
    assert!(inspect_requests(&Vec::new()).is_empty());
}

#[test]
fn sampled_containers() {
    let running = vec![container("r1"), container("r2")];
    assert!(lists_running_containers(&Vec::new()));
    assert!(!lists_running_containers(&strings(&["x"])));
    assert_eq!(stats_targets(&Vec::new(), &running), strings(&["r1", "r2"]));
    assert_eq!(stats_targets(&strings(&["x", "y"]), &running), strings(&["x", "y"]));
    assert!(stats_targets(&Vec::new(), &Vec::new()).is_empty());
}
