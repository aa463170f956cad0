//! Declarative entity queries: a per-component filter resolved into a
//! concrete entity set via store lookups and set intersection.

use vstd::prelude::*;

verus! {

/// One filter dimension: ignore the component, demand a value from a given
/// set, or demand the component with any value.
pub enum ComponentFilter<'qry, Component> {
    Ignore,
    Include(&'qry [Component]),
    Any,
}

/// The abstract value of a filter dimension.
pub enum FilterV<Component> {
    Ignore,
    Include(Seq<Component>),
    Any,
}

impl<'qry, Component> View for ComponentFilter<'qry, Component> {
    type V = FilterV<Component>;

    open spec fn view(&self) -> FilterV<Component> {
        match self {
            ComponentFilter::Ignore => FilterV::Ignore,
            ComponentFilter::Include(values) => FilterV::Include(values@),
            ComponentFilter::Any => FilterV::Any,
        }
    }
}

/// A query over the filterable components. At least one dimension must
/// constrain: a query that ignores every dimension is a precondition
/// violation, since an intersection of no sets is ill-defined.
pub struct EntityQuery<'qry> {
    pub allegiance_filter: ComponentFilter<'qry, crate::systems::Allegiance>,
    pub position_filter: ComponentFilter<'qry, crate::systems::Position>,
}

} // verus!
