use procora_tui::input::{Key, KeyPress, MouseKind};
use procora_tui::overview_app::{OverviewAction, OverviewApp, OverviewExit};
use procora_tui::overview_collection::{aggregate_resources, visible_services, OverviewSort};
use procora_tui::protocol::{ResourceUsageDto, ServiceStatusDto, ServiceViewDto};

fn service(name: &str, status: ServiceStatusDto, cpu: Option<u16>, memory: Option<u64>) -> ServiceViewDto {
    ServiceViewDto {
        name: name.to_owned(),
        root: format!("/srv/{name}"),
        config_path: format!("/srv/{name}/procora.yaml"),
        status,
        message: None,
        resources: if cpu.is_some() || memory.is_some() {
            Some(ResourceUsageDto { cpu_tenths_percent: cpu, memory_bytes: memory })
        } else {
            None
        },
    }
}

fn services() -> Vec<ServiceViewDto> {
    vec![
        service("web", ServiceStatusDto::Running, Some(120), Some(2048)),
        service("db", ServiceStatusDto::Failed, Some(900), None),
        service("cache", ServiceStatusDto::Stopped, None, Some(4096)),
    ]
}

fn names(list: &[ServiceViewDto]) -> Vec<&str> {
    list.iter().map(|service| service.name.as_str()).collect()
}

#[test]
fn services_are_ordered_by_the_chosen_field() {
    let all = services();
    assert_eq!(names(&visible_services(&all, "", OverviewSort::Name, false)), ["cache", "db", "web"]);
    assert_eq!(names(&visible_services(&all, "", OverviewSort::Name, true)), ["web", "db", "cache"]);
    assert_eq!(names(&visible_services(&all, "", OverviewSort::Status, false)), ["web", "cache", "db"]);
    assert_eq!(names(&visible_services(&all, "", OverviewSort::Cpu, true)), ["db", "web", "cache"]);
    assert_eq!(names(&visible_services(&all, "", OverviewSort::Memory, false)), ["db", "web", "cache"]);
}

#[test]
fn equal_fields_fall_back_to_the_name() {
    let all = vec![
        service("b", ServiceStatusDto::Running, None, None),
        service("a", ServiceStatusDto::Running, None, None),
    ];
    assert_eq!(names(&visible_services(&all, "", OverviewSort::Status, true)), ["a", "b"]);
}

#[test]
fn filter_is_trimmed_case_insensitive_and_checks_every_field() {
    let all = services();
    assert_eq!(names(&visible_services(&all, "  WEB ", OverviewSort::Name, false)), ["web"]);
    assert_eq!(names(&visible_services(&all, "失败", OverviewSort::Name, false)), ["db"]);
    assert_eq!(names(&visible_services(&all, "/srv/cache", OverviewSort::Name, false)), ["cache"]);
    assert!(visible_services(&all, "nothing", OverviewSort::Name, false).is_empty());
}

#[test]
fn resources_add_up_and_cpu_is_capped() {
    let all = services();
    assert_eq!(
        aggregate_resources(&all),
        Some(ResourceUsageDto { cpu_tenths_percent: Some(1000), memory_bytes: Some(6144) })
    );
    assert_eq!(aggregate_resources(&[]), None);
    let quiet = vec![service("idle", ServiceStatusDto::Stopped, None, None)];
    assert_eq!(aggregate_resources(&quiet), None);
}

#[test]
fn sort_fields_cycle_with_their_usual_direction() {
    assert_eq!(OverviewSort::Name.next(), OverviewSort::Status);
    assert_eq!(OverviewSort::Memory.next(), OverviewSort::Name);
    assert!(OverviewSort::Cpu.default_descending());
    assert!(!OverviewSort::Status.default_descending());
    assert_eq!(OverviewSort::Cpu.label(), "CPU");
    assert_eq!(OverviewSort::Name.label(), "名称");
    let mut app = OverviewApp::new(services(), false);
    assert!(app.handle_key(Key::Char('o')));
    assert_eq!(app.sort(), OverviewSort::Status);
    assert!(!app.sort_descending());
    assert!(app.handle_key(Key::Char('o')));
    assert_eq!(app.sort(), OverviewSort::Cpu);
    assert!(app.sort_descending());
    assert_eq!(names(app.visible_services()), ["db", "web", "cache"]);
}

#[test]
fn selection_follows_the_service_when_the_order_changes() {
    let mut app = OverviewApp::new(services(), false);
    assert_eq!(app.selected_service().map(|service| service.name.as_str()), Some("cache"));
    app.handle_key(Key::Char('O'));
    assert_eq!(names(app.visible_services()), ["web", "db", "cache"]);
    assert_eq!(app.selected_index(), 2);
    assert_eq!(app.selected_service().map(|service| service.name.as_str()), Some("cache"));
}

#[test]
fn removal_needs_two_presses_and_control() {
    let mut app = OverviewApp::new(services(), false);
    assert!(!app.handle_key(Key::Char('d')));
    app.set_control_allowed(true);
    assert!(app.handle_key(Key::Char('d')));
    assert_eq!(app.feedback(), Some("再次按 d 确认移除服务 `cache`（不会删除目录）"));
    assert!(app.take_pending_action().is_none());
    assert!(app.handle_key(Key::Char('d')));
    assert_eq!(app.take_pending_action(), Some(("cache".to_owned(), OverviewAction::Remove)));
}

#[test]
fn navigation_exits() {
    let mut app = OverviewApp::new(services(), false);
    assert!(app.handle_key(Key::Enter));
    assert!(matches!(app.take_exit(), Some(OverviewExit::OpenService(name)) if name == "cache"));
    assert!(!app.handle_key(Key::Char('n')));
    app.set_control_allowed(true);
    assert!(app.handle_key(Key::Char('n')));
    assert!(matches!(app.take_exit(), Some(OverviewExit::CreateService)));
    assert!(app.handle_key_event(KeyPress { code: Key::Char('c'), control: true }));
    assert!(matches!(app.take_exit(), Some(OverviewExit::Quit)));
}

#[test]
fn filter_typing_rebuilds_the_list_and_escape_restores() {
    let mut app = OverviewApp::new(services(), false);
    assert!(app.handle_key(Key::Char('/')));
    assert_eq!(app.filter_input(), Some(""));
    assert!(app.handle_key(Key::Char('w')));
    assert_eq!(app.filter_query(), "w");
    assert_eq!(names(app.visible_services()), ["web"]);
    assert!(app.handle_key(Key::Backspace));
    assert_eq!(app.filter_query(), "");
    app.handle_key(Key::Char('d'));
    assert!(app.handle_key(Key::Esc));
    assert_eq!(app.filter_query(), "");
    assert!(app.filter_input().is_none());
    assert_eq!(app.all_service_count(), 3);
}

#[test]
fn replaced_services_keep_the_selection_by_name() {
    let mut app = OverviewApp::new(services(), false);
    app.handle_key(Key::Down);
    assert_eq!(app.selected_service().map(|service| service.name.as_str()), Some("db"));
    let fewer = vec![
        service("db", ServiceStatusDto::Running, None, None),
        service("api", ServiceStatusDto::Running, None, None),
    ];
    assert!(app.replace_services(fewer));
    assert_eq!(app.selected_service().map(|service| service.name.as_str()), Some("db"));
    assert_eq!(app.selected_index(), 1);
    let same = vec![
        service("db", ServiceStatusDto::Running, None, None),
        service("api", ServiceStatusDto::Running, None, None),
    ];
    assert!(!app.replace_services(same));
}

#[test]
fn mouse_wheel_moves_the_selection() {
    let mut app = OverviewApp::new(services(), false);
    assert!(app.handle_mouse(MouseKind::ScrollUp));
    assert_eq!(app.selected_index(), 2);
    assert!(!app.handle_mouse(MouseKind::Other));
    assert!(app.set_feedback("ok".to_owned()));
    assert!(!app.set_feedback("ok".to_owned()));
    assert_eq!(app.visible_resources(), aggregate_resources(app.visible_services()));
}
