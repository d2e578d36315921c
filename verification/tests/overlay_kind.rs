use rtop::overlay::{filter, help, main_menu, options, ActiveModal, OverlayKind, ReturnTarget};

#[test]
fn default_is_none() {
    let m = ActiveModal::default();
    assert!(matches!(m, ActiveModal::Closed));
    assert_eq!(m.kind(), OverlayKind::Closed);
    assert!(!m.dims_underlay());
}

#[test]
fn kind_dispatch_for_each_variant() {
    assert_eq!(
        ActiveModal::Main(main_menu::MainMenuState::new()).kind(),
        OverlayKind::Main,
    );
    assert_eq!(
        ActiveModal::Help(help::HelpState::new(ReturnTarget::Normal)).kind(),
        OverlayKind::Help,
    );
    assert_eq!(
        ActiveModal::Options(options::OptionsState::new(ReturnTarget::Normal)).kind(),
        OverlayKind::Options,
    );
    assert_eq!(
        ActiveModal::Filter(filter::FilterState).kind(),
        OverlayKind::Filter,
    );
}

#[test]
fn options_with_active_edit_buffer_kinds_as_options_edit() {
    let mut opts = options::OptionsState::new(ReturnTarget::Normal);
    opts.enter_edit(options::edit::OptionEditState::placeholder());
    let m = ActiveModal::Options(opts);
    assert_eq!(m.kind(), OverlayKind::OptionsEdit);
}

#[test]
fn dims_underlay_only_for_centered_modals() {
    assert!(!ActiveModal::Closed.dims_underlay());
    assert!(!ActiveModal::Filter(filter::FilterState).dims_underlay());
    assert!(ActiveModal::Main(main_menu::MainMenuState::new()).dims_underlay());
    assert!(ActiveModal::Help(help::HelpState::new(ReturnTarget::Normal)).dims_underlay());
    assert!(
        ActiveModal::Options(options::OptionsState::new(ReturnTarget::Normal)).dims_underlay()
    );
}
