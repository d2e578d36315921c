use rtop::domain::config_enums::{CpuGraphSource, GraphSymbol, TempScale};

#[test]
fn temp_scale_default_is_celsius() {
    assert_eq!(TempScale::default(), TempScale::Celsius);
}

#[test]
fn temp_scale_names_match_all() {
    assert_eq!(TempScale::names().len(), TempScale::all().len());
    for (name, value) in TempScale::names().iter().zip(TempScale::all().iter()) {
        assert_eq!(*name, value.as_str());
    }
}

#[test]
fn temp_scale_round_trips() {
    for value in TempScale::all().iter().copied() {
        let s = value.as_str();
        assert_eq!(s.parse::<TempScale>().unwrap(), value);
        assert_eq!(value.to_string(), s);
    }
}

#[test]
fn temp_scale_rejects_invalid() {
    assert!("celcius".parse::<TempScale>().is_err());
    assert!("Celsius".parse::<TempScale>().is_err());
    assert!("".parse::<TempScale>().is_err());
}

#[test]
fn graph_symbol_default_is_default() {
    assert_eq!(GraphSymbol::default(), GraphSymbol::Default);
}

#[test]
fn graph_symbol_names_match_all() {
    assert_eq!(GraphSymbol::names().len(), GraphSymbol::all().len());
    for (name, value) in GraphSymbol::names().iter().zip(GraphSymbol::all().iter()) {
        assert_eq!(*name, value.as_str());
    }
}

#[test]
fn graph_symbol_round_trips() {
    for value in GraphSymbol::all().iter().copied() {
        let s = value.as_str();
        assert_eq!(s.parse::<GraphSymbol>().unwrap(), value);
        assert_eq!(value.to_string(), s);
    }
}

#[test]
fn graph_symbol_rejects_invalid() {
    assert!("ascii".parse::<GraphSymbol>().is_err());
    assert!("Block".parse::<GraphSymbol>().is_err());
}

#[test]
fn cpu_graph_source_default_is_auto() {
    assert_eq!(CpuGraphSource::default(), CpuGraphSource::Auto);
}

#[test]
fn cpu_graph_source_names_match_all() {
    assert_eq!(CpuGraphSource::names().len(), CpuGraphSource::all().len());
    for (name, value) in CpuGraphSource::names().iter().zip(CpuGraphSource::all().iter()) {
        assert_eq!(*name, value.as_str());
    }
}

#[test]
fn cpu_graph_source_round_trips() {
    for value in CpuGraphSource::all().iter().copied() {
        let s = value.as_str();
        assert_eq!(s.parse::<CpuGraphSource>().unwrap(), value);
        assert_eq!(value.to_string(), s);
    }
}

#[test]
fn cpu_graph_source_rejects_invalid() {
    assert!("Auto".parse::<CpuGraphSource>().is_err());
    assert!("kernel".parse::<CpuGraphSource>().is_err());
}
