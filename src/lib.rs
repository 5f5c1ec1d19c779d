pub mod attribute;
pub mod graph;
pub mod series;
pub mod text;

pub use attribute::{Attribute, AttributeView, Directives, ParseError};
pub use graph::{AssemblyError, ChartKind, ChartSpec, Graph, RenderError, Tagged};
pub use series::{Arithmetic, Op, Series, TransformError};
