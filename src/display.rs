//! Output formats: the display engines that app code uses to write a graph, selected by
//! name. Each engine reads only the node count and the edge list of the graph.
use crate::named_param::{
    listed_names, listing, name_part, not_found, params_part, resolve, resolves_to, same_text, spec_resolve, split_name, Listing, NamedParam,
};
use crate::parameters::{ParamError, ParamErrorKind, ParameterType, ParameterValue};
use vstd::prelude::*;

verus! {

/// An output format.
#[derive(Debug, Clone, Copy, PartialEq, Eq, Structural)]
pub enum GraphFormat {
    /// The Graphviz DOT format.
    Dot,
    /// GraphML.
    GraphMl,
    /// The DIMACS-like format of ICCMA'23: a `p af n` line, then one line per edge with
    /// 1-based indices (both ways for undirected graphs).
    IccmaDimacs,
    /// The Aspartix format: one `arg` fact per node and one `att` fact per edge.
    Aspartix,
}

/// A factory of display engines.
pub trait GraphDisplay: NamedParam<GraphFormat> {
}

/// The Graphviz DOT display engine (`dot`).
#[derive(Debug, Default, Clone, Copy)]
pub struct DotGraphDisplay;

impl NamedParam<GraphFormat> for DotGraphDisplay {
    open spec fn spec_name(&self) -> Seq<char> {
        "dot"@
    }

    open spec fn spec_description(&self) -> Seq<Seq<char>> {
        seq![
            "Output a graph using the Graphviz DOT format."@,
        ]
    }

    open spec fn spec_parameter_types(&self) -> Seq<ParameterType> {
        Seq::empty()
    }

    open spec fn spec_build(&self, values: Seq<ParameterValue>) -> Result<GraphFormat, ParamErrorKind> {
        Ok(GraphFormat::Dot)
    }

    fn name(&self) -> (r: &'static str) {
        "dot"
    }

    fn description(&self) -> (r: Vec<&'static str>) {
        let r = vec![
            "Output a graph using the Graphviz DOT format.",
        ];
        assert(r@.map_values(|l: &'static str| l@) =~= self.spec_description());
        r
    }

    fn expected_parameter_types(&self) -> (r: Vec<ParameterType>) {
        let r = Vec::new();
        assert(r@ =~= self.spec_parameter_types());
        r
    }

    fn try_with_params(&self, parameter_values: Vec<ParameterValue>) -> (r: Result<GraphFormat, ParamError>) {
        Ok(GraphFormat::Dot)
    }
}

impl GraphDisplay for DotGraphDisplay {
}

/// The GraphML display engine (`graphml`).
#[derive(Debug, Default, Clone, Copy)]
pub struct GraphMLGraphDisplay;

impl NamedParam<GraphFormat> for GraphMLGraphDisplay {
    open spec fn spec_name(&self) -> Seq<char> {
        "graphml"@
    }

    open spec fn spec_description(&self) -> Seq<Seq<char>> {
        seq![
            "Output a graph using the GraphML."@,
        ]
    }

    open spec fn spec_parameter_types(&self) -> Seq<ParameterType> {
        Seq::empty()
    }

    open spec fn spec_build(&self, values: Seq<ParameterValue>) -> Result<GraphFormat, ParamErrorKind> {
        Ok(GraphFormat::GraphMl)
    }

    fn name(&self) -> (r: &'static str) {
        "graphml"
    }

    fn description(&self) -> (r: Vec<&'static str>) {
        let r = vec![
            "Output a graph using the GraphML.",
        ];
        assert(r@.map_values(|l: &'static str| l@) =~= self.spec_description());
        r
    }

    fn expected_parameter_types(&self) -> (r: Vec<ParameterType>) {
        let r = Vec::new();
        assert(r@ =~= self.spec_parameter_types());
        r
    }

    fn try_with_params(&self, parameter_values: Vec<ParameterValue>) -> (r: Result<GraphFormat, ParamError>) {
        Ok(GraphFormat::GraphMl)
    }
}

impl GraphDisplay for GraphMLGraphDisplay {
}

/// The ICCMA'23 DIMACS-like display engine (`iccma_dimacs`).
#[derive(Debug, Default, Clone, Copy)]
pub struct ICCMADimacsGraphDisplay;

impl NamedParam<GraphFormat> for ICCMADimacsGraphDisplay {
    open spec fn spec_name(&self) -> Seq<char> {
        "iccma_dimacs"@
    }

    open spec fn spec_description(&self) -> Seq<Seq<char>> {
        seq![
            "Output a graph using the DIMACS-like format used at ICCMA'23."@,
        ]
    }

    open spec fn spec_parameter_types(&self) -> Seq<ParameterType> {
        Seq::empty()
    }

    open spec fn spec_build(&self, values: Seq<ParameterValue>) -> Result<GraphFormat, ParamErrorKind> {
        Ok(GraphFormat::IccmaDimacs)
    }

    fn name(&self) -> (r: &'static str) {
        "iccma_dimacs"
    }

    fn description(&self) -> (r: Vec<&'static str>) {
        let r = vec![
            "Output a graph using the DIMACS-like format used at ICCMA'23.",
        ];
        assert(r@.map_values(|l: &'static str| l@) =~= self.spec_description());
        r
    }

    fn expected_parameter_types(&self) -> (r: Vec<ParameterType>) {
        let r = Vec::new();
        assert(r@ =~= self.spec_parameter_types());
        r
    }

    fn try_with_params(&self, parameter_values: Vec<ParameterValue>) -> (r: Result<GraphFormat, ParamError>) {
        Ok(GraphFormat::IccmaDimacs)
    }
}

impl GraphDisplay for ICCMADimacsGraphDisplay {
}

/// The Aspartix display engine (`apx`, directed graphs).
#[derive(Debug, Default, Clone, Copy)]
pub struct AspartixGraphDisplay;

impl NamedParam<GraphFormat> for AspartixGraphDisplay {
    open spec fn spec_name(&self) -> Seq<char> {
        "apx"@
    }

    open spec fn spec_description(&self) -> Seq<Seq<char>> {
        seq![
            "Output a graph using the Aspartix format."@,
        ]
    }

    open spec fn spec_parameter_types(&self) -> Seq<ParameterType> {
        Seq::empty()
    }

    open spec fn spec_build(&self, values: Seq<ParameterValue>) -> Result<GraphFormat, ParamErrorKind> {
        Ok(GraphFormat::Aspartix)
    }

    fn name(&self) -> (r: &'static str) {
        "apx"
    }

    fn description(&self) -> (r: Vec<&'static str>) {
        let r = vec![
            "Output a graph using the Aspartix format.",
        ];
        assert(r@.map_values(|l: &'static str| l@) =~= self.spec_description());
        r
    }

    fn expected_parameter_types(&self) -> (r: Vec<ParameterType>) {
        let r = Vec::new();
        assert(r@ =~= self.spec_parameter_types());
        r
    }

    fn try_with_params(&self, parameter_values: Vec<ParameterValue>) -> (r: Result<GraphFormat, ParamError>) {
        Ok(GraphFormat::Aspartix)
    }
}

impl GraphDisplay for AspartixGraphDisplay {
}

/// What resolving a display engine string for directed graphs gives.
pub open spec fn spec_directed_display_engine_from_str(s: Seq<char>) -> Result<GraphFormat, (ParamErrorKind, Seq<char>)> {
    let name = name_part(s);
    let params = params_part(s);
    if name == DotGraphDisplay.spec_name() {
        spec_resolve(DotGraphDisplay, params)
    } else if name == GraphMLGraphDisplay.spec_name() {
        spec_resolve(GraphMLGraphDisplay, params)
    } else if name == ICCMADimacsGraphDisplay.spec_name() {
        spec_resolve(ICCMADimacsGraphDisplay, params)
    } else if name == AspartixGraphDisplay.spec_name() {
        spec_resolve(AspartixGraphDisplay, params)
    } else {
        Err((ParamErrorKind::NotFound, s))
    }
}

/// Given a string `name` or `name/params` for a display engine of directed graphs, returns the output format.
pub fn directed_display_engine_from_str(s: &str) -> (r: Result<GraphFormat, ParamError>)
    ensures
        resolves_to(r, spec_directed_display_engine_from_str(s@)),
{
    let parts = split_name(s);
    if same_text(parts.name, DotGraphDisplay.name()) {
        return resolve(&DotGraphDisplay, parts.params);
    }
    if same_text(parts.name, GraphMLGraphDisplay.name()) {
        return resolve(&GraphMLGraphDisplay, parts.params);
    }
    if same_text(parts.name, ICCMADimacsGraphDisplay.name()) {
        return resolve(&ICCMADimacsGraphDisplay, parts.params);
    }
    if same_text(parts.name, AspartixGraphDisplay.name()) {
        return resolve(&AspartixGraphDisplay, parts.params);
    }
    Err(not_found(s))
}

/// What resolving a display engine string for undirected graphs gives; the Aspartix format is not available there.
pub open spec fn spec_undirected_display_engine_from_str(s: Seq<char>) -> Result<GraphFormat, (ParamErrorKind, Seq<char>)> {
    let name = name_part(s);
    let params = params_part(s);
    if name == DotGraphDisplay.spec_name() {
        spec_resolve(DotGraphDisplay, params)
    } else if name == GraphMLGraphDisplay.spec_name() {
        spec_resolve(GraphMLGraphDisplay, params)
    } else if name == ICCMADimacsGraphDisplay.spec_name() {
        spec_resolve(ICCMADimacsGraphDisplay, params)
    } else {
        Err((ParamErrorKind::NotFound, s))
    }
}

/// Given a string `name` or `name/params` for a display engine of undirected graphs, returns the output format.
pub fn undirected_display_engine_from_str(s: &str) -> (r: Result<GraphFormat, ParamError>)
    ensures
        resolves_to(r, spec_undirected_display_engine_from_str(s@)),
{
    let parts = split_name(s);
    if same_text(parts.name, DotGraphDisplay.name()) {
        return resolve(&DotGraphDisplay, parts.params);
    }
    if same_text(parts.name, GraphMLGraphDisplay.name()) {
        return resolve(&GraphMLGraphDisplay, parts.params);
    }
    if same_text(parts.name, ICCMADimacsGraphDisplay.name()) {
        return resolve(&ICCMADimacsGraphDisplay, parts.params);
    }
    Err(not_found(s))
}


/// Lists the display engines for directed graphs, in registration order.
pub fn iter_directed_display_engines() -> (r: Vec<Listing>)
    ensures
        listed_names(r@) == seq![DotGraphDisplay.spec_name(), GraphMLGraphDisplay.spec_name(), ICCMADimacsGraphDisplay.spec_name(), AspartixGraphDisplay.spec_name()],
{
    let mut r: Vec<Listing> = Vec::new();
    r.push(listing(&DotGraphDisplay));
    r.push(listing(&GraphMLGraphDisplay));
    r.push(listing(&ICCMADimacsGraphDisplay));
    r.push(listing(&AspartixGraphDisplay));
    assert(listed_names(r@) =~= seq![DotGraphDisplay.spec_name(), GraphMLGraphDisplay.spec_name(), ICCMADimacsGraphDisplay.spec_name(), AspartixGraphDisplay.spec_name()]);
    r
}


/// Lists the display engines for undirected graphs, in registration order.
pub fn iter_undirected_display_engines() -> (r: Vec<Listing>)
    ensures
        listed_names(r@) == seq![DotGraphDisplay.spec_name(), GraphMLGraphDisplay.spec_name(), ICCMADimacsGraphDisplay.spec_name()],
{
    let mut r: Vec<Listing> = Vec::new();
    r.push(listing(&DotGraphDisplay));
    r.push(listing(&GraphMLGraphDisplay));
    r.push(listing(&ICCMADimacsGraphDisplay));
    assert(listed_names(r@) =~= seq![DotGraphDisplay.spec_name(), GraphMLGraphDisplay.spec_name(), ICCMADimacsGraphDisplay.spec_name()]);
    r
}

} // verus!
