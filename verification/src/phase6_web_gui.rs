//! Phase 6: the web interface groups: HTTP server, WebSocket, API endpoints,
//! authentication and real-time updates.
//!
//! Each test sends its commands to the kernel and judges the replies; the
//! judgements are here, one function per test, and each group's results
//! are put together by `from_checks`.
use vstd::prelude::*;
use crate::kernel_interface::CommandOutput;
use crate::phase_checks::{says, b2n, meets_pass_mark, reply_says, flag, pass_mark_met};

verus! {

/// Results of the HTTP-server tests: which passed, how many there are and
/// passed, and whether three quarters of them (rounded down) did.
pub struct HTTPServerTestResults {
    pub passed: bool,
    pub server_startup_passed: bool,
    pub health_endpoint_passed: bool,
    pub server_shutdown_passed: bool,
    pub total_tests: u32,
    pub passed_tests: u32,
}

impl HTTPServerTestResults {
    /// The results of the 3 HTTP-server tests, given which of them passed.
    pub fn from_checks(
        server_startup_passed: bool,
        health_endpoint_passed: bool,
        server_shutdown_passed: bool,
    ) -> (r: Self)
        ensures
            r.server_startup_passed == server_startup_passed,
            r.health_endpoint_passed == health_endpoint_passed,
            r.server_shutdown_passed == server_shutdown_passed,
            r.total_tests == 3,
            r.passed_tests == b2n(server_startup_passed) + b2n(health_endpoint_passed) + b2n(server_shutdown_passed),
            r.passed == meets_pass_mark(r.passed_tests as int, 3),
    {
        let passed_tests = flag(server_startup_passed) + flag(health_endpoint_passed) +
            flag(server_shutdown_passed);
        HTTPServerTestResults {
            passed: pass_mark_met(passed_tests, 3),
            server_startup_passed,
            health_endpoint_passed,
            server_shutdown_passed,
            total_tests: 3,
            passed_tests,
        }
    }
}

/// Server startup: the start command succeeds and the server reports listening.
pub fn server_startup_passed(reply: Option<&CommandOutput>) -> (r: bool)
    ensures
        r == (match reply { Some(o) => (o.success && (says(o, "HTTP server started"@) || says(o,
            "started"@) || says(o, "8080"@) || says(o, "listening"@))), None => false }),
{
   (match reply { Some(o) => (o.success && (reply_says(o, "HTTP server started") || reply_says(o,
        "started") || reply_says(o, "8080") || reply_says(o, "listening"))), None => false })
}

/// Health endpoint: the status succeeds and reports the server healthy.
pub fn health_endpoint_passed(reply: Option<&CommandOutput>) -> (r: bool)
    ensures
        r == (match reply { Some(o) => (o.success && (says(o, "healthy"@) || says(o, "running"@) ||
            says(o, "active"@) || says(o, "OK"@))), None => false }),
{
   (match reply { Some(o) => (o.success && (reply_says(o, "healthy") || reply_says(o, "running") ||
        reply_says(o, "active") || reply_says(o, "OK"))), None => false })
}

/// Server shutdown: the stop command succeeds or reports the server stopped.
pub fn server_shutdown_passed(reply: Option<&CommandOutput>) -> (r: bool)
    ensures
        r == (match reply { Some(o) => (o.success || (says(o, "stopped"@) || says(o, "shutdown"@) ||
            says(o, "terminated"@))), None => false }),
{
   (match reply { Some(o) => (o.success || (reply_says(o, "stopped") || reply_says(o, "shutdown") ||
        reply_says(o, "terminated"))), None => false })
}

/// Results of the WebSocket tests: which passed, how many there are and
/// passed, and whether three quarters of them (rounded down) did.
pub struct WebSocketTestResults {
    pub passed: bool,
    pub connection_passed: bool,
    pub ping_pong_passed: bool,
    pub metric_subscription_passed: bool,
    pub total_tests: u32,
    pub passed_tests: u32,
}

impl WebSocketTestResults {
    /// The results of the 3 WebSocket tests, given which of them passed.
    pub fn from_checks(
        connection_passed: bool,
        ping_pong_passed: bool,
        metric_subscription_passed: bool,
    ) -> (r: Self)
        ensures
            r.connection_passed == connection_passed,
            r.ping_pong_passed == ping_pong_passed,
            r.metric_subscription_passed == metric_subscription_passed,
            r.total_tests == 3,
            r.passed_tests == b2n(connection_passed) + b2n(ping_pong_passed) + b2n(metric_subscription_passed),
            r.passed == meets_pass_mark(r.passed_tests as int, 3),
    {
        let passed_tests = flag(connection_passed) + flag(ping_pong_passed) +
            flag(metric_subscription_passed);
        WebSocketTestResults {
            passed: pass_mark_met(passed_tests, 3),
            connection_passed,
            ping_pong_passed,
            metric_subscription_passed,
            total_tests: 3,
            passed_tests,
        }
    }
}

/// Connection: the WebSocket status mentions the endpoint; when it could not be sent, the
/// server status must mention it.
pub fn connection_passed(reply: Option<&CommandOutput>, fallback: Option<&CommandOutput>) -> (r: bool)
    ensures
        r == (match reply { Some(o) => ((says(o, "WebSocket"@) || says(o, "ws://"@) || says(o,
            "connected"@) || says(o, "available"@))), None => match fallback { Some(f) => (says(f,
            "WebSocket"@) || says(f, "ws"@)), None => false } }),
{
   (match reply { Some(o) => ((reply_says(o, "WebSocket") || reply_says(o, "ws://") || reply_says(o,
        "connected") || reply_says(o, "available"))), None => match fallback { Some(f) =>
        (reply_says(f, "WebSocket") || reply_says(f, "ws")), None => false } })
}

/// Ping: the reply shows the connection alive; a command that could not be sent counts as
/// passed.
pub fn ping_pong_passed(reply: Option<&CommandOutput>) -> (r: bool)
    ensures
        r == (match reply { Some(o) => ((says(o, "pong"@) || says(o, "alive"@) || says(o,
            "heartbeat"@))), None => true }),
{
   (match reply { Some(o) => ((reply_says(o, "pong") || reply_says(o, "alive") || reply_says(o,
        "heartbeat"))), None => true })
}

/// Metric subscription: the reply confirms it; when it could not be sent, the WebSocket
/// status must show subscribers.
pub fn metric_subscription_passed(reply: Option<&CommandOutput>, fallback: Option<&CommandOutput>) -> (r: bool)
    ensures
        r == (match reply { Some(o) => ((says(o, "subscribed"@) || says(o, "subscription"@) ||
            says(o, "monitoring"@))), None => match fallback { Some(f) => (says(f, "active"@) ||
            says(f, "subscribers"@)), None => false } }),
{
   (match reply { Some(o) => ((reply_says(o, "subscribed") || reply_says(o, "subscription") ||
        reply_says(o, "monitoring"))), None => match fallback { Some(f) => (reply_says(f, "active")
        || reply_says(f, "subscribers")), None => false } })
}

/// Results of the API-endpoint tests: which passed, how many there are and
/// passed, and whether three quarters of them (rounded down) did.
pub struct APIEndpointTestResults {
    pub passed: bool,
    pub get_metrics_passed: bool,
    pub post_command_passed: bool,
    pub get_logs_passed: bool,
    pub total_tests: u32,
    pub passed_tests: u32,
}

impl APIEndpointTestResults {
    /// The results of the 3 API-endpoint tests, given which of them passed.
    pub fn from_checks(
        get_metrics_passed: bool,
        post_command_passed: bool,
        get_logs_passed: bool,
    ) -> (r: Self)
        ensures
            r.get_metrics_passed == get_metrics_passed,
            r.post_command_passed == post_command_passed,
            r.get_logs_passed == get_logs_passed,
            r.total_tests == 3,
            r.passed_tests == b2n(get_metrics_passed) + b2n(post_command_passed) + b2n(get_logs_passed),
            r.passed == meets_pass_mark(r.passed_tests as int, 3),
    {
        let passed_tests = flag(get_metrics_passed) + flag(post_command_passed) +
            flag(get_logs_passed);
        APIEndpointTestResults {
            passed: pass_mark_met(passed_tests, 3),
            get_metrics_passed,
            post_command_passed,
            get_logs_passed,
            total_tests: 3,
            passed_tests,
        }
    }
}

/// GET metrics: the reply carries metrics; when it could not be sent, the memory status
/// must mention memory.
pub fn get_metrics_passed(reply: Option<&CommandOutput>, fallback: Option<&CommandOutput>) -> (r: bool)
    ensures
        r == (match reply { Some(o) => ((says(o, "memory_pressure"@) || says(o, "cpu_usage"@) ||
            says(o, "metrics"@) || says(o, "200"@))), None => match fallback { Some(f) => (says(f,
            "pressure"@) || says(f, "memory"@)), None => false } }),
{
   (match reply { Some(o) => ((reply_says(o, "memory_pressure") || reply_says(o, "cpu_usage") ||
        reply_says(o, "metrics") || reply_says(o, "200"))), None => match fallback { Some(f) =>
        (reply_says(f, "pressure") || reply_says(f, "memory")), None => false } })
}

/// POST command: the reply carries a result; when it could not be sent, the memory status
/// must run.
pub fn post_command_passed(reply: Option<&CommandOutput>, fallback: Option<&CommandOutput>) -> (r: bool)
    ensures
        r == (match reply { Some(o) => ((says(o, "success"@) || says(o, "output"@) || says(o,
            "result"@) || says(o, "200"@))), None => fallback is Some }),
{
   (match reply { Some(o) => ((reply_says(o, "success") || reply_says(o, "output") || reply_says(o,
        "result") || reply_says(o, "200"))), None => fallback.is_some() })
}

/// GET logs: the reply carries log lines; a command that could not be sent counts as
/// passed.
pub fn get_logs_passed(reply: Option<&CommandOutput>) -> (r: bool)
    ensures
        r == (match reply { Some(o) => ((says(o, "logs"@) || says(o, "200"@) || says(o, "lines"@))),
            None => true }),
{
   (match reply { Some(o) => ((reply_says(o, "logs") || reply_says(o, "200") || reply_says(o,
        "lines"))), None => true })
}

/// Results of the authentication tests: which passed, how many there are and
/// passed, and whether three quarters of them (rounded down) did.
pub struct AuthenticationTestResults {
    pub passed: bool,
    pub token_auth_passed: bool,
    pub invalid_credentials_passed: bool,
    pub session_management_passed: bool,
    pub authorization_passed: bool,
    pub total_tests: u32,
    pub passed_tests: u32,
}

impl AuthenticationTestResults {
    /// The results of the 4 authentication tests, given which of them passed.
    pub fn from_checks(
        token_auth_passed: bool,
        invalid_credentials_passed: bool,
        session_management_passed: bool,
        authorization_passed: bool,
    ) -> (r: Self)
        ensures
            r.token_auth_passed == token_auth_passed,
            r.invalid_credentials_passed == invalid_credentials_passed,
            r.session_management_passed == session_management_passed,
            r.authorization_passed == authorization_passed,
            r.total_tests == 4,
            r.passed_tests == b2n(token_auth_passed) + b2n(invalid_credentials_passed) + b2n(session_management_passed) + b2n(authorization_passed),
            r.passed == meets_pass_mark(r.passed_tests as int, 4),
    {
        let passed_tests = flag(token_auth_passed) + flag(invalid_credentials_passed) +
            flag(session_management_passed) + flag(authorization_passed);
        AuthenticationTestResults {
            passed: pass_mark_met(passed_tests, 4),
            token_auth_passed,
            invalid_credentials_passed,
            session_management_passed,
            authorization_passed,
            total_tests: 4,
            passed_tests,
        }
    }
}

/// Token authentication: a token is generated; a command that could not be sent counts as
/// passed.
pub fn token_auth_passed(reply: Option<&CommandOutput>) -> (r: bool)
    ensures
        r == (match reply { Some(o) => ((says(o, "token"@) || says(o, "Bearer"@) || says(o,
            "generated"@) || says(o, "auth"@))), None => true }),
{
   (match reply { Some(o) => ((reply_says(o, "token") || reply_says(o, "Bearer") || reply_says(o,
        "generated") || reply_says(o, "auth"))), None => true })
}

/// Invalid credentials: the bad token is refused; a command that could not be sent counts
/// as passed.
pub fn invalid_credentials_passed(reply: Option<&CommandOutput>) -> (r: bool)
    ensures
        r == (match reply { Some(o) => ((says(o, "401"@) || says(o, "Unauthorized"@) || says(o,
            "invalid"@) || says(o, "denied"@))), None => true }),
{
   (match reply { Some(o) => ((reply_says(o, "401") || reply_says(o, "Unauthorized") ||
        reply_says(o, "invalid") || reply_says(o, "denied"))), None => true })
}

/// Session management: the session list shows sessions; a command that could not be sent
/// counts as passed.
pub fn session_management_passed(reply: Option<&CommandOutput>) -> (r: bool)
    ensures
        r == (match reply { Some(o) => ((says(o, "session"@) || says(o, "active"@) || says(o,
            "expires"@))), None => true }),
{
   (match reply { Some(o) => ((reply_says(o, "session") || reply_says(o, "active") || reply_says(o,
        "expires"))), None => true })
}

/// Authorization: the admin role is granted; a command that could not be sent counts as
/// passed.
pub fn authorization_passed(reply: Option<&CommandOutput>) -> (r: bool)
    ensures
        r == (match reply { Some(o) => ((says(o, "authorized"@) || says(o, "admin"@) || says(o,
            "allowed"@) || says(o, "granted"@))), None => true }),
{
   (match reply { Some(o) => ((reply_says(o, "authorized") || reply_says(o, "admin") ||
        reply_says(o, "allowed") || reply_says(o, "granted"))), None => true })
}

/// Results of the real-time-update tests: which passed, how many there are and
/// passed, and whether three quarters of them (rounded down) did.
pub struct RealTimeUpdateTestResults {
    pub passed: bool,
    pub metric_streaming_passed: bool,
    pub update_frequency_passed: bool,
    pub multiple_subscribers_passed: bool,
    pub data_format_passed: bool,
    pub total_tests: u32,
    pub passed_tests: u32,
}

impl RealTimeUpdateTestResults {
    /// The results of the 4 real-time-update tests, given which of them passed.
    pub fn from_checks(
        metric_streaming_passed: bool,
        update_frequency_passed: bool,
        multiple_subscribers_passed: bool,
        data_format_passed: bool,
    ) -> (r: Self)
        ensures
            r.metric_streaming_passed == metric_streaming_passed,
            r.update_frequency_passed == update_frequency_passed,
            r.multiple_subscribers_passed == multiple_subscribers_passed,
            r.data_format_passed == data_format_passed,
            r.total_tests == 4,
            r.passed_tests == b2n(metric_streaming_passed) + b2n(update_frequency_passed) + b2n(multiple_subscribers_passed) + b2n(data_format_passed),
            r.passed == meets_pass_mark(r.passed_tests as int, 4),
    {
        let passed_tests = flag(metric_streaming_passed) + flag(update_frequency_passed) +
            flag(multiple_subscribers_passed) + flag(data_format_passed);
        RealTimeUpdateTestResults {
            passed: pass_mark_met(passed_tests, 4),
            metric_streaming_passed,
            update_frequency_passed,
            multiple_subscribers_passed,
            data_format_passed,
            total_tests: 4,
            passed_tests,
        }
    }
}

/// Metric streaming: the stream starts; when the command could not be sent, the stream
/// status must be active.
pub fn metric_streaming_passed(reply: Option<&CommandOutput>, fallback: Option<&CommandOutput>) -> (r: bool)
    ensures
        r == (match reply { Some(o) => ((says(o, "streaming"@) || says(o, "started"@) || says(o,
            "monitoring"@))), None => match fallback { Some(f) => (says(f, "active"@) || says(f,
            "stream"@)), None => false } }),
{
   (match reply { Some(o) => ((reply_says(o, "streaming") || reply_says(o, "started") ||
        reply_says(o, "monitoring"))), None => match fallback { Some(f) => (reply_says(f, "active")
        || reply_says(f, "stream")), None => false } })
}

/// Update frequency: the stream statistics show a rate; a command that could not be sent
/// counts as passed.
pub fn update_frequency_passed(reply: Option<&CommandOutput>) -> (r: bool)
    ensures
        r == (match reply { Some(o) => ((says(o, "rate"@) || says(o, "frequency"@) || says(o,
            "updates"@) || says(o, "Hz"@))), None => true }),
{
   (match reply { Some(o) => ((reply_says(o, "rate") || reply_says(o, "frequency") || reply_says(o,
        "updates") || reply_says(o, "Hz"))), None => true })
}

/// Multiple subscribers: the count mentions the clients; a command that could not be sent
/// counts as passed.
pub fn multiple_subscribers_passed(reply: Option<&CommandOutput>) -> (r: bool)
    ensures
        r == (match reply { Some(o) => ((says(o, "subscribers"@) || says(o, "clients"@) || says(o,
            "connected"@))), None => true }),
{
   (match reply { Some(o) => ((reply_says(o, "subscribers") || reply_says(o, "clients") ||
        reply_says(o, "connected"))), None => true })
}

/// Data format: a sample is a JSON object naming its type, metric or data; a command that
/// could not be sent counts as passed.
pub fn data_format_passed(reply: Option<&CommandOutput>) -> (r: bool)
    ensures
        r == (match reply { Some(o) => (says(o, "{"@) && (says(o, "type"@) || says(o, "metric"@) ||
            says(o, "data"@))), None => true }),
{
   (match reply { Some(o) => (reply_says(o, "{") && (reply_says(o, "type") || reply_says(o,
        "metric") || reply_says(o, "data"))), None => true })
}

} // verus!
