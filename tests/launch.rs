use zeromcp::{
    decide, Directive, DiscoveredService, DiscoveryEvent, LaunchAttempt, LaunchPlan, McpConfig,
    Progress, RenderContext, ResolveError, ServiceMcpMapping, ZeroConfig,
};

fn demo_service() -> DiscoveredService {
    DiscoveredService::new(
        "foo._demo._tcp.local.".to_string(),
        "foo.local.".to_string(),
        8080,
        vec!["192.168.1.20".to_string()],
    )
}

fn stdio(args: &[&str], envs: &[(&str, &str)]) -> McpConfig {
    McpConfig::Stdio {
        name: "demo".to_string(),
        command: "/usr/bin/demo".to_string(),
        args: args.iter().map(|a| a.to_string()).collect(),
        envs: envs.iter().map(|(k, v)| (k.to_string(), v.to_string())).collect(),
    }
}

fn demo_config(args: &[&str]) -> ZeroConfig {
    ZeroConfig {
        service_mappings: vec![ServiceMcpMapping {
            zeroconf_service: "_demo._tcp.local.".to_string(),
            mcp: stdio(args, &[]),
        }],
    }
}

fn process_args(p: Progress) -> Vec<String> {
    match p {
        Progress::Ready(LaunchPlan::Process { args, .. }) => args,
        other => panic!("expected a process plan, got {:?}", other),
    }
}

#[test]
fn fullname_template_launches_without_input() {
    let config = demo_config(&["--key={{service.fullname}}"]);
    let event = DiscoveryEvent::Resolved {
        service: demo_service(),
        service_type: "_demo._tcp.local.".to_string(),
    };
    let d = decide(&config, event);
    assert_eq!(d, Directive::Launch { mapping: 0 });
    let mut attempt = LaunchAttempt::new(config.service_mappings[0].mcp.clone(), demo_service());
    let p = attempt.advance();
    assert_eq!(
        p,
        Progress::Ready(LaunchPlan::Process {
            command: "/usr/bin/demo".to_string(),
            args: vec!["--key=foo._demo._tcp.local.".to_string()],
            envs: vec![],
        })
    );
}

#[test]
fn missing_token_is_asked_for_then_substituted() {
    let config = demo_config(&["--token={{token}}"]);
    let mut attempt = LaunchAttempt::new(config.service_mappings[0].mcp.clone(), demo_service());
    assert_eq!(attempt.advance(), Progress::InputRequired("token".to_string()));
    // asking again without an answer repeats the request and renders nothing
    assert_eq!(attempt.advance(), Progress::InputRequired("token".to_string()));
    attempt.provide_input("abc123".to_string());
    assert_eq!(process_args(attempt.advance()), vec!["--token=abc123".to_string()]);
}

#[test]
fn two_missing_variables_are_asked_in_order_once_each() {
    let mut attempt = LaunchAttempt::new(stdio(&["{{first}}-{{second}}"], &[]), demo_service());
    assert_eq!(attempt.advance(), Progress::InputRequired("first".to_string()));
    attempt.provide_input("one".to_string());
    assert_eq!(attempt.advance(), Progress::InputRequired("second".to_string()));
    assert!(attempt.rendered.is_empty());
    attempt.provide_input("two".to_string());
    assert_eq!(process_args(attempt.advance()), vec!["one-two".to_string()]);
}

#[test]
fn a_supplied_value_serves_every_later_template() {
    let mut attempt = LaunchAttempt::new(
        stdio(&["--user={{user}}", "--again={{user}}"], &[("TOKEN", "{{user}}:{{service.port}}")]),
        demo_service(),
    );
    assert_eq!(attempt.advance(), Progress::InputRequired("user".to_string()));
    attempt.provide_input("ann".to_string());
    match attempt.advance() {
        Progress::Ready(LaunchPlan::Process { command, args, envs }) => {
            assert_eq!(command, "/usr/bin/demo");
            assert_eq!(args, vec!["--user=ann".to_string(), "--again=ann".to_string()]);
            assert_eq!(envs, vec![("TOKEN".to_string(), "ann:8080".to_string())]);
        }
        other => panic!("unexpected {:?}", other),
    }
}

#[test]
fn closed_input_fails_the_launch_for_good() {
    let mut attempt = LaunchAttempt::new(stdio(&["--token={{token}}"], &[]), demo_service());
    assert_eq!(attempt.advance(), Progress::InputRequired("token".to_string()));
    let failed = Progress::Failed(ResolveError::InputUnavailable("token".to_string()));
    assert_eq!(attempt.input_unavailable(), failed);
    assert_eq!(attempt.advance(), failed);
    assert!(attempt.pending.is_none());
}

#[test]
fn variable_still_missing_after_its_value_fails() {
    let mut attempt = LaunchAttempt::new(stdio(&["{{token.inner}}"], &[]), demo_service());
    assert_eq!(attempt.advance(), Progress::InputRequired("token.inner".to_string()));
    attempt.provide_input("x".to_string());
    assert_eq!(
        attempt.advance(),
        Progress::Failed(ResolveError::RepeatedVariable("token.inner".to_string()))
    );
}

#[test]
fn broken_template_fails_without_asking() {
    let mut attempt = LaunchAttempt::new(stdio(&["{{#if flag}}unclosed"], &[]), demo_service());
    assert_eq!(attempt.advance(), Progress::Failed(ResolveError::RenderFailed));
}

#[test]
fn spec_without_templates_is_ready_at_once() {
    let mut attempt = LaunchAttempt::new(stdio(&[], &[]), demo_service());
    assert_eq!(process_args(attempt.advance()), Vec::<String>::new());
}

#[test]
fn network_spec_renders_url_then_headers() {
    let cfg = McpConfig::Sse {
        name: "remote".to_string(),
        url: "http://{{service.hostname}}:{{service.port}}/sse".to_string(),
        headers: Some(vec![("Authorization".to_string(), "Bearer {{token}}".to_string())]),
    };
    let mut attempt = LaunchAttempt::new(cfg, demo_service());
    assert_eq!(attempt.advance(), Progress::InputRequired("token".to_string()));
    attempt.provide_input("abc".to_string());
    assert_eq!(
        attempt.advance(),
        Progress::Ready(LaunchPlan::Network {
            url: "http://foo.local.:8080/sse".to_string(),
            headers: Some(vec![("Authorization".to_string(), "Bearer abc".to_string())]),
        })
    );
}

#[test]
fn network_spec_without_headers() {
    let cfg = McpConfig::Sse {
        name: "remote".to_string(),
        url: "http://{{service.addresses.[0]}}/sse".to_string(),
        headers: None,
    };
    let mut attempt = LaunchAttempt::new(cfg, demo_service());
    assert_eq!(
        attempt.advance(),
        Progress::Ready(LaunchPlan::Network {
            url: "http://192.168.1.20/sse".to_string(),
            headers: None,
        })
    );
}

#[test]
fn accept_render_takes_each_outcome() {
    let mut attempt = LaunchAttempt::new(stdio(&["a", "b"], &[]), demo_service());
    assert_eq!(attempt.accept_render(Ok("first".to_string())), None);
    assert_eq!(attempt.rendered, vec!["first".to_string()]);
    assert_eq!(
        attempt.accept_render(Err(Some("k".to_string()))),
        Some(Progress::InputRequired("k".to_string()))
    );
    assert_eq!(attempt.pending, Some("k".to_string()));
    attempt.provide_input("v".to_string());
    assert_eq!(attempt.context.vars, vec![("k".to_string(), "v".to_string())]);
    assert_eq!(
        attempt.accept_render(Err(Some("k".to_string()))),
        Some(Progress::Failed(ResolveError::RepeatedVariable("k".to_string())))
    );
    let mut other = LaunchAttempt::new(stdio(&["a"], &[]), demo_service());
    assert_eq!(
        other.accept_render(Err(None)),
        Some(Progress::Failed(ResolveError::RenderFailed))
    );
}

#[test]
fn render_context_knows_supplied_variables() {
    let mut ctx = RenderContext::new(demo_service());
    assert!(!ctx.has_var(&"token".to_string()));
    ctx.vars.push(("token".to_string(), "abc".to_string()));
    assert!(ctx.has_var(&"token".to_string()));
}

#[test]
fn self_including_inline_partial_is_refused_unrendered() {
    let tpl = "{{#*inline \"a\"}}{{> a}}{{/inline}}{{> a}}";
    let mut attempt = LaunchAttempt::new(stdio(&["ok", tpl], &[]), demo_service());
    assert_eq!(attempt.advance(), Progress::Failed(ResolveError::RenderFailed));
    assert_eq!(attempt.rendered, vec!["ok".to_string()]);
}

#[test]
fn decorator_openings_are_recognised() {
    let opens = zeromcp::template::opens_decorator_exec;
    assert!(opens("{{#*inline \"a\"}}x{{/inline}}"));
    assert!(opens("pre {{~ # *inline \"a\"}}x{{/inline}}"));
    assert!(opens("{{*decorator}}"));
    assert!(!opens("--key={{service.fullname}}"));
    assert!(!opens("{{#if x}}*{{/if}}"));
    assert!(!opens("{ {*"));
    assert!(!opens(""));
}
