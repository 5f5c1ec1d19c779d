use tsgraph::graph::split_name;
use tsgraph::{
    Arithmetic, AssemblyError, Attribute, ChartKind, Graph, Op, RenderError, Series, Tagged,
    TransformError,
};

fn float_arithmetic() -> Arithmetic<f64, impl Fn(Op, f64, f64) -> f64, impl Fn(f64, f64) -> bool> {
    Arithmetic {
        zero: 0.0,
        half: 0.5,
        op: |op: Op, a: f64, b: f64| match op {
            Op::Add => a + b,
            Op::Sub => a - b,
            Op::Mul => a * b,
            Op::Div => a / b,
        },
        same: |a: f64, b: f64| a == b,
    }
}

fn series(name: &str, points: &[(f64, f64)]) -> Series<f64> {
    Series { name: name.to_string(), data: points.to_vec() }
}

fn tagged(name: &str, points: &[(f64, f64)], attrs: Vec<Attribute>) -> Tagged<f64> {
    (series(name, points), attrs)
}

fn assemble(tags: Vec<Tagged<f64>>, virt: bool) -> Result<Graph<f64>, AssemblyError> {
    Graph::assemble(
        "folder/base".to_string(),
        "ms".to_string(),
        "time".to_string(),
        &tags,
        virt,
        &float_arithmetic(),
    )
}

#[test]
fn split_name_on_last_separator() {
    assert_eq!(split_name("folder/base"), ("folder".to_string(), "base".to_string()));
    assert_eq!(split_name("a/b/c"), ("a/b".to_string(), "c".to_string()));
    assert_eq!(split_name("plain"), ("".to_string(), "plain".to_string()));
    assert_eq!(split_name("dir/"), ("dir".to_string(), "".to_string()));
    assert_eq!(split_name(""), ("".to_string(), "".to_string()));
}

#[test]
fn from_default_splits_name() {
    let g = Graph::from_default(
        "net/eth0".to_string(),
        "B".to_string(),
        "s".to_string(),
        vec![series("rx", &[(0.0, 1.0)])],
        true,
    );
    assert_eq!(g.name_folder, "net");
    assert_eq!(g.name_base, "eth0");
    assert!(g.virt && !g.area && !g.zero && !g.joinable && !g.log);
    assert_eq!(g.series.len(), 1);
}

#[test]
fn assemble_applies_transforms_and_flags() {
    let g = assemble(
        vec![
            tagged("a", &[(0.0, 0.0), (2.0, 4.0)], vec![Attribute::Differentiate, Attribute::Area]),
            tagged("b", &[(0.0, 5.0), (1.0, 8.0)], vec![Attribute::Delta, Attribute::Log]),
            tagged("c", &[(0.0, 1.0)], vec![Attribute::Join("t1".to_string()), Attribute::Xaxis]),
        ],
        false,
    )
    .unwrap();
    assert_eq!(g.name_base, "base");
    assert_eq!(g.name_folder, "folder");
    assert_eq!(g.series.len(), 3);
    assert_eq!(g.series[0].data, vec![(2.0, 2.0)]);
    assert_eq!(g.series[1].data, vec![(0.0, 5.0), (1.0, 3.0)]);
    assert_eq!(g.series[2].data, vec![(0.0, 1.0)]);
    assert!(g.area && g.log && g.joinable && !g.zero);
    assert_eq!(g.join_topics, vec!["t1".to_string()]);
    assert_eq!(g.xaxis_series, vec!["c".to_string()]);
    assert!(g.integrals.is_empty());
}

#[test]
fn hidden_integral_still_reports_total() {
    let g = assemble(
        vec![
            tagged("area", &[(0.0, 0.0), (1.0, 2.0), (2.0, 0.0)], vec![Attribute::Integrate, Attribute::Hide]),
            tagged("shown", &[(0.0, 1.0)], vec![Attribute::Zero]),
        ],
        false,
    )
    .unwrap();
    assert_eq!(g.series.len(), 1);
    assert_eq!(g.series[0].name, "shown");
    assert_eq!(g.integrals, vec![("area".to_string(), 2.0)]);
    assert!(g.zero && !g.joinable);
}

#[test]
fn all_hidden_is_empty_series_set() {
    let r = assemble(
        vec![
            tagged("a", &[(0.0, 1.0)], vec![Attribute::Hide]),
            tagged("b", &[(0.0, 1.0)], vec![Attribute::Hide, Attribute::Area]),
        ],
        false,
    );
    assert_eq!(r.unwrap_err(), AssemblyError::EmptySeriesSet);
    assert_eq!(assemble(vec![], false).unwrap_err(), AssemblyError::EmptySeriesSet);
}

#[test]
fn two_transforms_are_ambiguous() {
    let r = assemble(
        vec![tagged("a", &[(0.0, 1.0), (1.0, 2.0)], vec![Attribute::Delta, Attribute::Integrate])],
        false,
    );
    assert_eq!(r.unwrap_err(), AssemblyError::AmbiguousTransform);
}

#[test]
fn same_transform_twice_is_not_ambiguous() {
    let g = assemble(
        vec![tagged("a", &[(0.0, 1.0), (1.0, 2.0)], vec![Attribute::Delta, Attribute::Delta])],
        false,
    )
    .unwrap();
    assert_eq!(g.series[0].data, vec![(0.0, 1.0), (1.0, 1.0)]);
}

#[test]
fn transform_errors_propagate() {
    let r = assemble(vec![tagged("a", &[(0.0, 1.0)], vec![Attribute::Differentiate])], false);
    assert_eq!(r.unwrap_err(), AssemblyError::Transform(TransformError::InsufficientPoints));
    let r = assemble(
        vec![tagged("a", &[(1.0, 1.0), (1.0, 2.0)], vec![Attribute::Differentiate])],
        false,
    );
    assert_eq!(r.unwrap_err(), AssemblyError::Transform(TransformError::DegenerateDomain));
}

#[test]
fn render_zero_forces_minimum() {
    for zero in [true, false] {
        for data in [[(0.0, -3.0), (1.0, 2.0)], [(0.0, 3.0), (1.0, 7.0)]] {
            let mut g = Graph::from_default(
                "folder/base".to_string(),
                "ms".to_string(),
                "time".to_string(),
                vec![series("s", &data)],
                false,
            );
            g.zero = zero;
            let c = g.gen_highchart().unwrap();
            assert_eq!(c.y_axis_min, if zero { Some(0) } else { None });
        }
    }
}

#[test]
fn render_fields() {
    let g = assemble(vec![tagged("s", &[(0.0, 1.0), (1.0, 2.0)], vec![Attribute::Area])], true).unwrap();
    let c = g.gen_highchart().unwrap();
    assert_eq!(c.container, "folder/base");
    assert_eq!(c.kind, ChartKind::Area);
    assert_eq!(c.title, "base (ms)");
    assert_eq!(c.subtitle, "[ folder/base ]");
    assert_eq!(c.x_title, "time");
    assert_eq!(c.series.len(), 1);
    assert_eq!(c.series[0].data, vec![(0.0, 1.0), (1.0, 2.0)]);

    let g = assemble(vec![tagged("s", &[(0.0, 1.0)], vec![])], false).unwrap();
    let c = g.gen_highchart().unwrap();
    assert_eq!(c.kind, ChartKind::Line);
    assert_eq!(c.subtitle, "folder/base");
    assert_eq!(c.y_axis_min, None);
}

#[test]
fn render_empty_series_fails() {
    let g = Graph::from_default(
        "g".to_string(),
        "u".to_string(),
        "t".to_string(),
        vec![series("full", &[(0.0, 1.0)]), series("empty", &[])],
        false,
    );
    assert_eq!(g.gen_highchart().unwrap_err(), RenderError::EmptySeries);
}
