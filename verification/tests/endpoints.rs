use power_msmt::endpoints::{
    firmware_node_uri, response_problem, shelly_reset_uri, shelly_status_uri, socket_address,
    ResponseProblem, TEKHSI_PORT,
};

#[test]
fn addresses() {
    assert_eq!(socket_address("10.42.0.44", 7000), "10.42.0.44:7000");
    assert_eq!(socket_address("scope", TEKHSI_PORT), "scope:5000");
    assert_eq!(socket_address("h", 0), "h:0");
    assert_eq!(firmware_node_uri("urecs"), "https://urecs/REST/node/RCU_0_BB_1_1");
    assert_eq!(shelly_status_uri("plug"), "http://plug/rpc/Switch.GetStatus?id=0");
    assert_eq!(shelly_reset_uri("plug"), "http://plug/rpc/Switch.ResetCounters?id=0");
}

#[test]
fn replies_are_judged_by_status() {
    assert_eq!(response_problem(200), None);
    assert_eq!(response_problem(299), None);
    assert_eq!(response_problem(404), Some(ResponseProblem::ClientError));
    assert_eq!(response_problem(503), Some(ResponseProblem::ServerError));
    assert_eq!(response_problem(302), Some(ResponseProblem::CommunicationError));
    assert_eq!(response_problem(101), Some(ResponseProblem::CommunicationError));
    assert_eq!(response_problem(600), Some(ResponseProblem::CommunicationError));
}
