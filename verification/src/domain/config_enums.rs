//! Typed enums for closed-set config fields. `as_str` is the single
//! source of the canonical lowercase string form; `parse` accepts
//! exactly those strings.

use vstd::prelude::*;

use crate::text::{str_eq, to_owned_string};

verus! {

/// Error for a string that names no [`TempScale`]; carries the input.
#[derive(Debug)]
pub struct ParseTempScaleError(pub String);

#[derive(Debug, Clone, Copy, PartialEq, Eq, Structural)]
pub enum TempScale {
    Celsius,
    Fahrenheit,
    Kelvin,
    Rankine,
}

pub open spec fn temp_scale_name(t: TempScale) -> Seq<char> {
    match t {
        TempScale::Celsius => seq!['c', 'e', 'l', 's', 'i', 'u', 's'],
        TempScale::Fahrenheit => seq!['f', 'a', 'h', 'r', 'e', 'n', 'h', 'e', 'i', 't'],
        TempScale::Kelvin => seq!['k', 'e', 'l', 'v', 'i', 'n'],
        TempScale::Rankine => seq!['r', 'a', 'n', 'k', 'i', 'n', 'e'],
    }
}

pub open spec fn all_temp_scales() -> Seq<TempScale> {
    seq![TempScale::Celsius, TempScale::Fahrenheit, TempScale::Kelvin, TempScale::Rankine]
}

impl TempScale {
    /// Every variant in cycle order.
    pub fn all() -> (r: Vec<TempScale>)
        ensures
            r@ == all_temp_scales(),
    {
        let r = vec![TempScale::Celsius, TempScale::Fahrenheit, TempScale::Kelvin, TempScale::Rankine];
        assert(r@ =~= all_temp_scales());
        r
    }

    /// The canonical names, in the order of [`Self::all`].
    pub fn names() -> (r: Vec<&'static str>)
        ensures
            r@.len() == all_temp_scales().len(),
            forall|i: int| 0 <= i < r@.len() ==> #[trigger] r@[i]@ == temp_scale_name(all_temp_scales()[i]),
    {
        vec![TempScale::Celsius.as_str(), TempScale::Fahrenheit.as_str(), TempScale::Kelvin.as_str(), TempScale::Rankine.as_str()]
    }

    pub fn as_str(self) -> (r: &'static str)
        ensures
            r@ == temp_scale_name(self),
    {
        proof {
            reveal_strlit("celsius");
            reveal_strlit("fahrenheit");
            reveal_strlit("kelvin");
            reveal_strlit("rankine");
        }
        match self {
            TempScale::Celsius => "celsius",
            TempScale::Fahrenheit => "fahrenheit",
            TempScale::Kelvin => "kelvin",
            TempScale::Rankine => "rankine",
        }
    }

    pub fn to_string(&self) -> (r: String)
        ensures
            r@ == temp_scale_name(*self),
    {
        to_owned_string(self.as_str())
    }

    /// The variant whose canonical name is `s` (case-sensitive).
    pub fn parse(s: &str) -> (r: Result<TempScale, ParseTempScaleError>)
        ensures
            r matches Ok(t) ==> temp_scale_name(t) == s@,
            r matches Err(e) ==> e.0@ == s@ && forall|t: TempScale| temp_scale_name(t) != s@,
    {
        let all = Self::all();
        let mut i: usize = 0;
        while i < all.len()
            invariant
                all@ == all_temp_scales(),
                i <= all.len(),
                forall|j: int| 0 <= j < i ==> temp_scale_name(#[trigger] all_temp_scales()[j]) != s@,
            decreases all.len() - i,
        {
            if str_eq(all[i].as_str(), s) {
                return Ok(all[i]);
            }
            i = i + 1;
        }
        proof {
            assert forall|t: TempScale| temp_scale_name(t) != s@ by {
                match t {
                    TempScale::Celsius => assert(all_temp_scales()[0] == t),
                    TempScale::Fahrenheit => assert(all_temp_scales()[1] == t),
                    TempScale::Kelvin => assert(all_temp_scales()[2] == t),
                    TempScale::Rankine => assert(all_temp_scales()[3] == t),
                }
            }
        }
        Err(ParseTempScaleError(to_owned_string(s)))
    }
}

impl Default for TempScale {
    fn default() -> (r: TempScale)
        ensures
            r == TempScale::Celsius,
    {
        TempScale::Celsius
    }
}

impl std::str::FromStr for TempScale {
    type Err = ParseTempScaleError;

    fn from_str(s: &str) -> (r: Result<Self, Self::Err>)
        ensures
            r matches Ok(t) ==> temp_scale_name(t) == s@,
            r matches Err(e) ==> e.0@ == s@ && forall|t: TempScale| temp_scale_name(t) != s@,
    {
        TempScale::parse(s)
    }
}

/// Error for a string that names no [`GraphSymbol`]; carries the input.
#[derive(Debug)]
pub struct ParseGraphSymbolError(pub String);

/// Graph symbol setting; `Default` means "inherit the global setting".
#[derive(Debug, Clone, Copy, PartialEq, Eq, Structural)]
pub enum GraphSymbol {
    Default,
    Braille,
    Block,
}

pub open spec fn graph_symbol_name(t: GraphSymbol) -> Seq<char> {
    match t {
        GraphSymbol::Default => seq!['d', 'e', 'f', 'a', 'u', 'l', 't'],
        GraphSymbol::Braille => seq!['b', 'r', 'a', 'i', 'l', 'l', 'e'],
        GraphSymbol::Block => seq!['b', 'l', 'o', 'c', 'k'],
    }
}

pub open spec fn all_graph_symbols() -> Seq<GraphSymbol> {
    seq![GraphSymbol::Default, GraphSymbol::Braille, GraphSymbol::Block]
}

impl GraphSymbol {
    pub fn all() -> (r: Vec<GraphSymbol>)
        ensures
            r@ == all_graph_symbols(),
    {
        let r = vec![GraphSymbol::Default, GraphSymbol::Braille, GraphSymbol::Block];
        assert(r@ =~= all_graph_symbols());
        r
    }

    pub fn names() -> (r: Vec<&'static str>)
        ensures
            r@.len() == all_graph_symbols().len(),
            forall|i: int| 0 <= i < r@.len() ==> #[trigger] r@[i]@ == graph_symbol_name(all_graph_symbols()[i]),
    {
        vec![GraphSymbol::Default.as_str(), GraphSymbol::Braille.as_str(), GraphSymbol::Block.as_str()]
    }

    pub fn as_str(self) -> (r: &'static str)
        ensures
            r@ == graph_symbol_name(self),
    {
        proof {
            reveal_strlit("default");
            reveal_strlit("braille");
            reveal_strlit("block");
        }
        match self {
            GraphSymbol::Default => "default",
            GraphSymbol::Braille => "braille",
            GraphSymbol::Block => "block",
        }
    }

    pub fn to_string(&self) -> (r: String)
        ensures
            r@ == graph_symbol_name(*self),
    {
        to_owned_string(self.as_str())
    }

    pub fn parse(s: &str) -> (r: Result<GraphSymbol, ParseGraphSymbolError>)
        ensures
            r matches Ok(t) ==> graph_symbol_name(t) == s@,
            r matches Err(e) ==> e.0@ == s@ && forall|t: GraphSymbol| graph_symbol_name(t) != s@,
    {
        let all = Self::all();
        let mut i: usize = 0;
        while i < all.len()
            invariant
                all@ == all_graph_symbols(),
                i <= all.len(),
                forall|j: int| 0 <= j < i ==> graph_symbol_name(#[trigger] all_graph_symbols()[j]) != s@,
            decreases all.len() - i,
        {
            if str_eq(all[i].as_str(), s) {
                return Ok(all[i]);
            }
            i = i + 1;
        }
        proof {
            assert forall|t: GraphSymbol| graph_symbol_name(t) != s@ by {
                match t {
                    GraphSymbol::Default => assert(all_graph_symbols()[0] == t),
                    GraphSymbol::Braille => assert(all_graph_symbols()[1] == t),
                    GraphSymbol::Block => assert(all_graph_symbols()[2] == t),
                }
            }
        }
        Err(ParseGraphSymbolError(to_owned_string(s)))
    }
}

impl Default for GraphSymbol {
    fn default() -> (r: GraphSymbol)
        ensures
            r == GraphSymbol::Default,
    {
        GraphSymbol::Default
    }
}

impl std::str::FromStr for GraphSymbol {
    type Err = ParseGraphSymbolError;

    fn from_str(s: &str) -> (r: Result<Self, Self::Err>)
        ensures
            r matches Ok(t) ==> graph_symbol_name(t) == s@,
            r matches Err(e) ==> e.0@ == s@ && forall|t: GraphSymbol| graph_symbol_name(t) != s@,
    {
        GraphSymbol::parse(s)
    }
}

/// Error for a string that names no [`CpuGraphSource`]; carries the input.
#[derive(Debug)]
pub struct ParseCpuGraphSourceError(pub String);

/// Which CPU history a graph plots.
#[derive(Debug, Clone, Copy, PartialEq, Eq, Structural)]
pub enum CpuGraphSource {
    Auto,
    Total,
    User,
    System,
}

pub open spec fn cpu_graph_source_name(t: CpuGraphSource) -> Seq<char> {
    match t {
        CpuGraphSource::Auto => seq!['a', 'u', 't', 'o'],
        CpuGraphSource::Total => seq!['t', 'o', 't', 'a', 'l'],
        CpuGraphSource::User => seq!['u', 's', 'e', 'r'],
        CpuGraphSource::System => seq!['s', 'y', 's', 't', 'e', 'm'],
    }
}

pub open spec fn all_cpu_graph_sources() -> Seq<CpuGraphSource> {
    seq![CpuGraphSource::Auto, CpuGraphSource::Total, CpuGraphSource::User, CpuGraphSource::System]
}

impl CpuGraphSource {
    pub fn all() -> (r: Vec<CpuGraphSource>)
        ensures
            r@ == all_cpu_graph_sources(),
    {
        let r = vec![CpuGraphSource::Auto, CpuGraphSource::Total, CpuGraphSource::User, CpuGraphSource::System];
        assert(r@ =~= all_cpu_graph_sources());
        r
    }

    pub fn names() -> (r: Vec<&'static str>)
        ensures
            r@.len() == all_cpu_graph_sources().len(),
            forall|i: int| 0 <= i < r@.len() ==> #[trigger] r@[i]@ == cpu_graph_source_name(all_cpu_graph_sources()[i]),
    {
        vec![CpuGraphSource::Auto.as_str(), CpuGraphSource::Total.as_str(), CpuGraphSource::User.as_str(), CpuGraphSource::System.as_str()]
    }

    pub fn as_str(self) -> (r: &'static str)
        ensures
            r@ == cpu_graph_source_name(self),
    {
        proof {
            reveal_strlit("auto");
            reveal_strlit("total");
            reveal_strlit("user");
            reveal_strlit("system");
        }
        match self {
            CpuGraphSource::Auto => "auto",
            CpuGraphSource::Total => "total",
            CpuGraphSource::User => "user",
            CpuGraphSource::System => "system",
        }
    }

    /// Graph-overlay label: `Auto` is shown as `"total"`, the series it
    /// plots.
    pub fn display_label(self) -> (r: &'static str)
        ensures
            r@ == cpu_graph_source_name(match self {
                CpuGraphSource::Auto => CpuGraphSource::Total,
                other => other,
            }),
    {
        match self {
            CpuGraphSource::User => CpuGraphSource::User.as_str(),
            CpuGraphSource::System => CpuGraphSource::System.as_str(),
            CpuGraphSource::Auto | CpuGraphSource::Total => CpuGraphSource::Total.as_str(),
        }
    }

    pub fn to_string(&self) -> (r: String)
        ensures
            r@ == cpu_graph_source_name(*self),
    {
        to_owned_string(self.as_str())
    }

    pub fn parse(s: &str) -> (r: Result<CpuGraphSource, ParseCpuGraphSourceError>)
        ensures
            r matches Ok(t) ==> cpu_graph_source_name(t) == s@,
            r matches Err(e) ==> e.0@ == s@ && forall|t: CpuGraphSource| cpu_graph_source_name(t) != s@,
    {
        let all = Self::all();
        let mut i: usize = 0;
        while i < all.len()
            invariant
                all@ == all_cpu_graph_sources(),
                i <= all.len(),
                forall|j: int| 0 <= j < i ==> cpu_graph_source_name(#[trigger] all_cpu_graph_sources()[j]) != s@,
            decreases all.len() - i,
        {
            if str_eq(all[i].as_str(), s) {
                return Ok(all[i]);
            }
            i = i + 1;
        }
        proof {
            assert forall|t: CpuGraphSource| cpu_graph_source_name(t) != s@ by {
                match t {
                    CpuGraphSource::Auto => assert(all_cpu_graph_sources()[0] == t),
                    CpuGraphSource::Total => assert(all_cpu_graph_sources()[1] == t),
                    CpuGraphSource::User => assert(all_cpu_graph_sources()[2] == t),
                    CpuGraphSource::System => assert(all_cpu_graph_sources()[3] == t),
                }
            }
        }
        Err(ParseCpuGraphSourceError(to_owned_string(s)))
    }
}

impl Default for CpuGraphSource {
    fn default() -> (r: CpuGraphSource)
        ensures
            r == CpuGraphSource::Auto,
    {
        CpuGraphSource::Auto
    }
}

impl std::str::FromStr for CpuGraphSource {
    type Err = ParseCpuGraphSourceError;

    fn from_str(s: &str) -> (r: Result<Self, Self::Err>)
        ensures
            r matches Ok(t) ==> cpu_graph_source_name(t) == s@,
            r matches Err(e) ==> e.0@ == s@ && forall|t: CpuGraphSource| cpu_graph_source_name(t) != s@,
    {
        CpuGraphSource::parse(s)
    }
}

} // verus!
