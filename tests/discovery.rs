use zeromcp::{
    decide, ActorState, Directive, DiscoveredService, DiscoveryEvent, Handled, McpConfig,
    ServiceActor, ServiceMcpMapping, ServiceMessage, ZeroConfig,
};

fn mapping(service_type: &str, command: &str) -> ServiceMcpMapping {
    ServiceMcpMapping {
        zeroconf_service: service_type.to_string(),
        mcp: McpConfig::Stdio {
            name: command.to_string(),
            command: command.to_string(),
            args: vec![],
            envs: vec![],
        },
    }
}

fn resolved(name: &str, service_type: &str) -> DiscoveryEvent {
    DiscoveryEvent::Resolved {
        service: DiscoveredService::new(name.to_string(), "h.local.".to_string(), 1, vec![]),
        service_type: service_type.to_string(),
    }
}

fn config() -> ZeroConfig {
    ZeroConfig {
        service_mappings: vec![
            mapping("_a._tcp.local.", "first"),
            mapping("_b._tcp.local.", "second"),
            mapping("_a._tcp.local.", "third"),
        ],
    }
}

#[test]
fn later_mapping_of_a_type_governs() {
    let c = config();
    assert_eq!(c.mapping_index(&"_a._tcp.local.".to_string()), Some(2));
    assert_eq!(c.mapping_index(&"_b._tcp.local.".to_string()), Some(1));
    assert_eq!(c.mapping_index(&"_c._tcp.local.".to_string()), None);
    assert_eq!(c.mapping_for(&"_b._tcp.local.".to_string()), Some(&c.service_mappings[1].mcp));
}

#[test]
fn each_service_type_is_browsed_once() {
    let types = config().service_types();
    assert_eq!(types, vec!["_a._tcp.local.".to_string(), "_b._tcp.local.".to_string()]);
    assert!(ZeroConfig { service_mappings: vec![] }.service_types().is_empty());
}

#[test]
fn directives_for_events() {
    let c = config();
    assert_eq!(decide(&c, resolved("x._a._tcp.local.", "_a._tcp.local.")), Directive::Launch { mapping: 2 });
    assert_eq!(decide(&c, resolved("x._c._tcp.local.", "_c._tcp.local.")), Directive::Unmapped);
    let removed = DiscoveryEvent::Removed { fullname: "x._a._tcp.local.".to_string() };
    assert_eq!(removed.service_name(), "x._a._tcp.local.");
    assert_eq!(decide(&c, removed), Directive::Stop { fullname: "x._a._tcp.local.".to_string() });
}

#[test]
fn duplicate_resolve_while_registered_is_ignored() {
    let c = config();
    let actor = ServiceActor;
    let mut state: ActorState<u32> = actor.pre_start();
    let name = "x._a._tcp.local.".to_string();
    assert_eq!(decide(&c, resolved(&name, "_a._tcp.local.")), Directive::Launch { mapping: 2 });
    let claim = || ServiceMessage::ClaimLaunch { name: name.clone() };
    assert_eq!(actor.handle(&mut state, claim()), Handled::Claimed);
    // a second resolve while the launch is in flight launches nothing
    assert_eq!(actor.handle(&mut state, claim()), Handled::AlreadyManaged);
    let add = ServiceMessage::AddService { name: name.clone(), service: 7 };
    assert_eq!(actor.handle(&mut state, add), Handled::Added);
    assert!(!state.is_launching(&name));
    // and neither does one once it runs
    assert_eq!(actor.handle(&mut state, claim()), Handled::AlreadyManaged);
    // a launch that raced through anyway is refused and handed back
    let late = ServiceMessage::AddService { name: name.clone(), service: 8 };
    assert_eq!(actor.handle(&mut state, late), Handled::Rejected(8));
    assert_eq!(state.lookup(&name), Some(&7));
}

#[test]
fn failed_launch_releases_its_claim() {
    let actor = ServiceActor;
    let mut state: ActorState<u32> = actor.pre_start();
    let name = "y._a._tcp.local.".to_string();
    assert_eq!(actor.handle(&mut state, ServiceMessage::ClaimLaunch { name: name.clone() }), Handled::Claimed);
    assert!(state.is_launching(&name));
    assert_eq!(actor.handle(&mut state, ServiceMessage::ReleaseLaunch { name: name.clone() }), Handled::Released);
    assert!(!state.is_launching(&name));
    assert_eq!(actor.handle(&mut state, ServiceMessage::ClaimLaunch { name: name.clone() }), Handled::Claimed);
    assert!(!state.contains(&name));
}

#[test]
fn duplicate_keys_make_a_spec_ill_formed() {
    let ok = McpConfig::Stdio {
        name: "n".to_string(),
        command: "c".to_string(),
        args: vec![],
        envs: vec![("A".to_string(), "1".to_string()), ("B".to_string(), "2".to_string())],
    };
    assert!(ok.is_well_formed());
    let twice = McpConfig::Sse {
        name: "n".to_string(),
        url: "http://h/sse".to_string(),
        headers: Some(vec![("X".to_string(), "1".to_string()), ("X".to_string(), "2".to_string())]),
    };
    assert!(!twice.is_well_formed());
    let bare = McpConfig::Sse { name: "n".to_string(), url: "http://h/sse".to_string(), headers: None };
    assert!(bare.is_well_formed());
}
