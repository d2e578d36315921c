use rtop::domain::layout_spec::{HStackChild, Slot, SlotParseError};
use rtop::domain::widget_kind::WidgetKind;

fn nz(n: u8) -> u8 {
    assert!(n != 0, "test weight must be non-zero");
    n
}

#[test]
fn contains_finds_widget_at_root() {
    let s = Slot::Widget(WidgetKind::Cpu);
    assert!(s.contains(WidgetKind::Cpu));
    assert!(!s.contains(WidgetKind::Mem));
}

#[test]
fn contains_finds_widget_in_nested_vstack() {
    let s = Slot::VStack(vec![
        Slot::Widget(WidgetKind::Cpu),
        Slot::VStack(vec![Slot::Widget(WidgetKind::Mem)]),
    ]);
    assert!(s.contains(WidgetKind::Cpu));
    assert!(s.contains(WidgetKind::Mem));
    assert!(!s.contains(WidgetKind::Net));
}

#[test]
fn contains_finds_widget_in_hstack_children() {
    let s = Slot::HStack(vec![
        HStackChild::new(Slot::Widget(WidgetKind::Mem), nz(40)),
        HStackChild::new(Slot::Widget(WidgetKind::Proc), nz(60)),
    ]);
    assert!(s.contains(WidgetKind::Mem));
    assert!(s.contains(WidgetKind::Proc));
    assert!(!s.contains(WidgetKind::Cpu));
}

#[test]
fn contains_recognizes_singleton_gpu_widget() {
    let s = Slot::VStack(vec![
        Slot::Widget(WidgetKind::Cpu),
        Slot::Widget(WidgetKind::Gpu),
    ]);
    assert!(s.contains(WidgetKind::Gpu));
    assert!(s.contains(WidgetKind::Cpu));
    assert!(!s.contains(WidgetKind::Mem));
}

#[test]
fn equality_compares_structure_and_weights() {
    let a = Slot::HStack(vec![HStackChild::new(
        Slot::Widget(WidgetKind::Mem),
        nz(40),
    )]);
    let b = Slot::HStack(vec![HStackChild::new(
        Slot::Widget(WidgetKind::Mem),
        nz(40),
    )]);
    let c = Slot::HStack(vec![HStackChild::new(
        Slot::Widget(WidgetKind::Mem),
        nz(50),
    )]);
    assert_eq!(a, b);
    assert_ne!(a, c);
}

#[test]
fn validate_accepts_unique_widgets() {
    let s = Slot::VStack(vec![
        Slot::Widget(WidgetKind::Cpu),
        Slot::Widget(WidgetKind::Mem),
        Slot::Widget(WidgetKind::Gpu),
        Slot::Widget(WidgetKind::Net),
    ]);
    assert!(s.validate().is_ok());
}

#[test]
fn validate_rejects_duplicate_widget_kind() {
    let s = Slot::VStack(vec![
        Slot::Widget(WidgetKind::Cpu),
        Slot::Widget(WidgetKind::Cpu),
    ]);
    assert_eq!(
        s.validate(),
        Err(SlotParseError::DuplicateWidget(WidgetKind::Cpu))
    );
}

#[test]
fn validate_rejects_duplicate_gpu_widget() {
    // The cycling-GPU widget is a singleton — placing it
    // twice in the layout is rejected just like duplicating
    // any other widget kind.
    let s = Slot::VStack(vec![
        Slot::Widget(WidgetKind::Gpu),
        Slot::Widget(WidgetKind::Gpu),
    ]);
    assert_eq!(
        s.validate(),
        Err(SlotParseError::DuplicateWidget(WidgetKind::Gpu))
    );
}

#[test]
fn display_widget_emits_widget_name() {
    assert_eq!(Slot::Widget(WidgetKind::Cpu).to_string(), "cpu");
    assert_eq!(Slot::Widget(WidgetKind::Gpu).to_string(), "gpu");
}

#[test]
fn display_vstack_uses_comma_space_separator() {
    let s = Slot::VStack(vec![
        Slot::Widget(WidgetKind::Cpu),
        Slot::Widget(WidgetKind::Mem),
    ]);
    assert_eq!(s.to_string(), "vstack(cpu, mem)");
}

#[test]
fn display_hstack_uses_weight_colon_slot() {
    let s = Slot::HStack(vec![
        HStackChild::new(Slot::Widget(WidgetKind::Mem), nz(40)),
        HStackChild::new(Slot::Widget(WidgetKind::Proc), nz(60)),
    ]);
    assert_eq!(s.to_string(), "hstack(40:mem, 60:proc)");
}

#[test]
fn display_nested_emits_canonical_form() {
    let s = Slot::VStack(vec![
        Slot::Widget(WidgetKind::Cpu),
        Slot::HStack(vec![
            HStackChild::new(
                Slot::VStack(vec![
                    Slot::Widget(WidgetKind::Mem),
                    Slot::Widget(WidgetKind::Net),
                ]),
                nz(40),
            ),
            HStackChild::new(Slot::Widget(WidgetKind::Proc), nz(60)),
        ]),
    ]);
    assert_eq!(
        s.to_string(),
        "vstack(cpu, hstack(40:vstack(mem, net), 60:proc))"
    );
}

#[test]
fn parse_bare_widget() {
    assert_eq!("cpu".parse::<Slot>(), Ok(Slot::Widget(WidgetKind::Cpu)));
    assert_eq!("gpu".parse::<Slot>(), Ok(Slot::Widget(WidgetKind::Gpu)));
}

#[test]
fn parse_simple_vstack() {
    assert_eq!(
        "vstack(cpu, mem)".parse::<Slot>(),
        Ok(Slot::VStack(vec![
            Slot::Widget(WidgetKind::Cpu),
            Slot::Widget(WidgetKind::Mem),
        ]))
    );
}

#[test]
fn parse_simple_hstack() {
    assert_eq!(
        "hstack(40:mem, 60:proc)".parse::<Slot>(),
        Ok(Slot::HStack(vec![
            HStackChild::new(Slot::Widget(WidgetKind::Mem), nz(40)),
            HStackChild::new(Slot::Widget(WidgetKind::Proc), nz(60)),
        ]))
    );
}

#[test]
fn parse_tolerates_extra_whitespace() {
    assert_eq!(
        "  vstack( cpu , mem )  ".parse::<Slot>(),
        Ok(Slot::VStack(vec![
            Slot::Widget(WidgetKind::Cpu),
            Slot::Widget(WidgetKind::Mem),
        ]))
    );
    assert_eq!(
        "hstack(40 : mem, 60 : proc)".parse::<Slot>(),
        Ok(Slot::HStack(vec![
            HStackChild::new(Slot::Widget(WidgetKind::Mem), nz(40)),
            HStackChild::new(Slot::Widget(WidgetKind::Proc), nz(60)),
        ]))
    );
}

#[test]
fn parse_complex_nested() {
    let input = "vstack(cpu, hstack(40:vstack(mem, net, disk), 60:proc))";
    let parsed: Slot = input.parse().unwrap();
    assert_eq!(parsed.to_string(), input);
}

#[test]
fn parse_rejects_empty_string() {
    assert_eq!("".parse::<Slot>(), Err(SlotParseError::Empty));
    assert_eq!("   ".parse::<Slot>(), Err(SlotParseError::Empty));
}

#[test]
fn parse_rejects_unknown_widget() {
    assert!(matches!(
        "nope".parse::<Slot>(),
        Err(SlotParseError::UnknownWidget { name }) if name == "nope"
    ));
    assert!(matches!(
        "gpu99".parse::<Slot>(),
        Err(SlotParseError::UnknownWidget { name }) if name == "gpu99"
    ));
}

#[test]
fn parse_rejects_zero_weight() {
    assert!(matches!(
        "hstack(0:mem, 60:proc)".parse::<Slot>(),
        Err(SlotParseError::InvalidWeight { text }) if text == "0"
    ));
}

#[test]
fn parse_rejects_overflow_weight() {
    assert!(matches!(
        "hstack(256:mem, 1:proc)".parse::<Slot>(),
        Err(SlotParseError::InvalidWeight { text }) if text == "256"
    ));
}

#[test]
fn parse_rejects_missing_open_paren() {
    assert!(matches!(
        "vstack cpu, mem)".parse::<Slot>(),
        Err(SlotParseError::Expected { expected: '(', .. })
    ));
}

#[test]
fn parse_rejects_missing_close_paren() {
    assert!(matches!(
        "vstack(cpu, mem".parse::<Slot>(),
        Err(SlotParseError::Expected { expected: ')', .. })
    ));
}

#[test]
fn parse_rejects_missing_colon_in_hstack_child() {
    assert!(matches!(
        "hstack(40 mem, 60:proc)".parse::<Slot>(),
        Err(SlotParseError::Expected { expected: ':', .. })
    ));
}

#[test]
fn parse_rejects_trailing_input() {
    assert!(matches!(
        "cpu garbage".parse::<Slot>(),
        Err(SlotParseError::TrailingInput { .. })
    ));
}

#[test]
fn parse_rejects_empty_container() {
    // Empty containers are unrepresentable in the grammar — the
    // first child is required, so this fails on the missing
    // identifier.
    assert!(matches!(
        "vstack()".parse::<Slot>(),
        Err(SlotParseError::ExpectedSlot { .. })
    ));
    assert!(matches!(
        "hstack()".parse::<Slot>(),
        Err(SlotParseError::ExpectedNumber { .. })
    ));
}

#[test]
fn parse_rejects_duplicate_widget() {
    assert!(matches!(
        "vstack(cpu, cpu)".parse::<Slot>(),
        Err(SlotParseError::DuplicateWidget(WidgetKind::Cpu))
    ));
}

#[test]
fn round_trip_through_display_and_parse() {
    // Several non-trivial trees survive Display -> FromStr.
    let trees: Vec<Slot> = vec![
        Slot::Widget(WidgetKind::Cpu),
        Slot::VStack(vec![
            Slot::Widget(WidgetKind::Cpu),
            Slot::Widget(WidgetKind::Proc),
        ]),
        Slot::HStack(vec![
            HStackChild::new(Slot::Widget(WidgetKind::Mem), nz(40)),
            HStackChild::new(Slot::Widget(WidgetKind::Proc), nz(60)),
        ]),
        Slot::VStack(vec![
            Slot::Widget(WidgetKind::Cpu),
            Slot::HStack(vec![
                HStackChild::new(
                    Slot::VStack(vec![
                        Slot::Widget(WidgetKind::Gpu),
                        Slot::Widget(WidgetKind::Mem),
                        Slot::Widget(WidgetKind::Net),
                        Slot::Widget(WidgetKind::Disk),
                    ]),
                    nz(40),
                ),
                HStackChild::new(Slot::Widget(WidgetKind::Proc), nz(60)),
            ]),
        ]),
    ];
    for tree in trees {
        let s = tree.to_string();
        let parsed: Slot = s.parse().expect("round-trip parse");
        assert_eq!(parsed, tree, "tree did not round-trip: {s}");
    }
}
