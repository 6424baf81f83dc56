//! A graph generator following an inner/outer pattern: an outer graph fixes the
//! macro-topology, each of its nodes is replaced by an inner graph, and each of its
//! edges is expanded into edges between the corresponding inner graphs, chosen by a
//! linker.

pub mod display;
pub mod generators;
pub mod graph;
pub mod inner_outer;
pub mod linkers;
pub mod named_param;
pub mod parameters;
pub mod random;

pub use generators::{
    BarabasiAlbertGeneratorFactory, ChainGeneratorFactory, ErdosRenyiGeneratorFactory, TreeGeneratorFactory,
    WattsStrogatzGeneratorFactory,
};
pub use graph::{Graph, InnerGraph, InterGraphEdge, NodeIndexType};
pub use inner_outer::InnerOuterGenerationStep;
pub use linkers::{BidirectionalFirstToFirstLinker, FirstToFirstLinker};
pub use named_param::NamedParam;
pub use parameters::{ParamError, ParamErrorKind, ParameterType, ParameterValue, Probability};
