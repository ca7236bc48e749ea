//! The subjects of one graph.
use vstd::prelude::*;
use crate::resource::ResourceInterpretation;
use crate::subject::LinkedDataSubject;

verus! {

/// A graph: its subjects, in order.
#[derive(Debug, PartialEq, Eq)]
pub struct LinkedDataGraph {
    pub subjects: Vec<LinkedDataSubject>,
}

/// One graph of a dataset with its label: none for the default graph.
#[derive(Debug, PartialEq, Eq)]
pub struct GraphEntry {
    pub name: Option<ResourceInterpretation>,
    pub graph: LinkedDataGraph,
}

/// A dataset given graph by graph.
#[derive(Debug, PartialEq, Eq)]
pub struct LinkedDataDataset {
    pub graphs: Vec<GraphEntry>,
}

impl LinkedDataGraph {
    /// A graph with no subject.
    pub fn new() -> (res: LinkedDataGraph)
        ensures
            res.subjects@.len() == 0,
    {
        LinkedDataGraph { subjects: Vec::new() }
    }
}

} // verus!
