use vstd::prelude::*;
use crate::attribute::{
    attribute_views, join_topics, string_views, Attribute, AttributeView, Directives,
};
use crate::series::{Arithmetic, Op, Series, TransformError};
use crate::text::{last_index_of, lemma_last_index_of, rfind_char};

verus! {

/// The folder part of a hierarchical name: everything before the last `/`.
pub open spec fn name_folder_of(name: Seq<char>) -> Seq<char> {
    match last_index_of(name, '/') {
        Some(k) => name.subrange(0, k),
        None => Seq::empty(),
    }
}

/// The base part of a hierarchical name: everything after the last `/`.
pub open spec fn name_base_of(name: Seq<char>) -> Seq<char> {
    match last_index_of(name, '/') {
        Some(k) => name.subrange(k + 1, name.len() as int),
        None => name,
    }
}

/// Splits a hierarchical name into its folder and its base.
pub fn split_name(name: &str) -> (r: (String, String))
    ensures
        r.0@ == name_folder_of(name@),
        r.1@ == name_base_of(name@),
{
    proof {
        lemma_last_index_of(name@, '/');
    }
    match rfind_char(name, '/') {
        Some(k) => {
            let n = name.unicode_len();
            let folder = name.substring_char(0, k);
            let base = name.substring_char(k + 1, n);
            (String::from_str(folder), String::from_str(base))
        },
        None => {
            let folder = String::new();
            assert(folder@ =~= Seq::<char>::empty());
            (folder, String::from_str(name))
        },
    }
}

/// A named aggregate of series that share axis units, with its rendering flags.
#[derive(Debug)]
pub struct Graph<V> {
    pub name: String,
    pub name_base: String,
    pub name_folder: String,
    pub unit: String,
    pub x_unit: String,
    pub series: Vec<Series<V>>,
    pub virt: bool,
    pub joinable: bool,
    pub area: bool,
    pub zero: bool,
    pub log: bool,
    /// The join topics requested by the series, in order.
    pub join_topics: Vec<String>,
    /// The names of the series marked as carrying x-axis semantics.
    pub xaxis_series: Vec<String>,
    /// The total area of each integrated series, hidden ones included.
    pub integrals: Vec<(String, V)>,
}

/// The names and points of a list of series.
pub open spec fn series_views<V>(s: Seq<Series<V>>) -> Seq<(Seq<char>, Seq<(V, V)>)> {
    s.map_values(|x: Series<V>| (x.name@, x.data@))
}

/// The names and values of a list of named totals.
pub open spec fn total_views<V>(s: Seq<(String, V)>) -> Seq<(Seq<char>, V)> {
    s.map_values(|x: (String, V)| (x.0@, x.1))
}

impl<V> Graph<V> {
    /// The base and folder are those of the name.
    pub open spec fn wf(&self) -> bool {
        &&& self.name_base@ == name_base_of(self.name@)
        &&& self.name_folder@ == name_folder_of(self.name@)
    }

    /// A directly sourced graph with all flags off.
    pub fn from_default(
        name: String,
        unit: String,
        x_unit: String,
        series: Vec<Series<V>>,
        virt: bool,
    ) -> (r: Graph<V>)
        ensures
            r.wf(),
            r.name@ == name@,
            r.unit@ == unit@,
            r.x_unit@ == x_unit@,
            r.series@ == series@,
            r.virt == virt,
            !r.joinable,
            !r.area,
            !r.zero,
            !r.log,
            r.join_topics@.len() == 0,
            r.xaxis_series@.len() == 0,
            r.integrals@.len() == 0,
    {
        let (name_folder, name_base) = split_name(name.as_str());
        Graph {
            name,
            name_base,
            name_folder,
            unit,
            x_unit,
            series,
            virt,
            joinable: false,
            area: false,
            zero: false,
            log: false,
            join_topics: Vec::new(),
            xaxis_series: Vec::new(),
            integrals: Vec::new(),
        }
    }
}

/// Why a graph could not be assembled.
#[derive(Debug, Clone, Copy, PartialEq, Eq, Structural)]
pub enum AssemblyError {
    /// A series asks for more than one transform.
    AmbiguousTransform,
    /// The requested transform failed.
    Transform(TransformError),
    /// No series is left visible.
    EmptySeriesSet,
}

/// A series together with its attributes.
pub type Tagged<V> = (Series<V>, Vec<Attribute>);

/// The attribute views of a tagged series.
pub open spec fn tags<V>(e: Tagged<V>) -> Seq<AttributeView> {
    attribute_views(e.1@)
}

/// How many distinct transforms `v` asks for.
pub open spec fn transform_count(v: Seq<AttributeView>) -> int {
    (if v.contains(AttributeView::Differentiate) { 1int } else { 0int }) + (if v.contains(
        AttributeView::Integrate,
    ) {
        1int
    } else {
        0int
    }) + (if v.contains(AttributeView::Delta) { 1int } else { 0int })
}

/// Whether the single transform requested by `v` is integration.
pub open spec fn integrates(v: Seq<AttributeView>) -> bool {
    transform_count(v) < 2 && v.contains(AttributeView::Integrate)
}

/// The points of a series after the transform its attributes ask for.
pub open spec fn transformed<V: Copy, F: Fn(Op, V, V) -> V, E: Fn(V, V) -> bool>(
    ar: Arithmetic<V, F, E>,
    d: Seq<(V, V)>,
    v: Seq<AttributeView>,
) -> Result<Seq<(V, V)>, AssemblyError> {
    if transform_count(v) >= 2 {
        Err(AssemblyError::AmbiguousTransform)
    } else if v.contains(AttributeView::Differentiate) {
        if d.len() < 2 {
            Err(AssemblyError::Transform(TransformError::InsufficientPoints))
        } else if ar.has_zero_width(d) {
            Err(AssemblyError::Transform(TransformError::DegenerateDomain))
        } else {
            Ok(ar.slope_points(d))
        }
    } else if v.contains(AttributeView::Integrate) {
        Ok(ar.area_points(d))
    } else if v.contains(AttributeView::Delta) {
        Ok(ar.delta_points(d))
    } else {
        Ok(d)
    }
}

/// The error of the first tagged series whose transform fails, if any.
pub open spec fn first_error<V: Copy, F: Fn(Op, V, V) -> V, E: Fn(V, V) -> bool>(
    ar: Arithmetic<V, F, E>,
    t: Seq<Tagged<V>>,
) -> Option<AssemblyError>
    decreases t.len(),
{
    if t.len() == 0 {
        None
    } else {
        match first_error(ar, t.drop_last()) {
            Some(e) => Some(e),
            None => match transformed(ar, t.last().0.data@, tags(t.last())) {
                Err(e) => Some(e),
                Ok(_) => None,
            },
        }
    }
}

/// The transformed series that are not hidden, in order.
pub open spec fn visible<V: Copy, F: Fn(Op, V, V) -> V, E: Fn(V, V) -> bool>(
    ar: Arithmetic<V, F, E>,
    t: Seq<Tagged<V>>,
) -> Seq<(Seq<char>, Seq<(V, V)>)>
    decreases t.len(),
{
    if t.len() == 0 {
        Seq::empty()
    } else {
        let e = t.last();
        let rest = visible(ar, t.drop_last());
        if tags(e).contains(AttributeView::Hide) {
            rest
        } else {
            match transformed(ar, e.0.data@, tags(e)) {
                Ok(d) => rest.push((e.0.name@, d)),
                Err(_) => rest,
            }
        }
    }
}

/// The name and total area of each integrated series, hidden ones included.
pub open spec fn integrals<V: Copy, F: Fn(Op, V, V) -> V, E: Fn(V, V) -> bool>(
    ar: Arithmetic<V, F, E>,
    t: Seq<Tagged<V>>,
) -> Seq<(Seq<char>, V)>
    decreases t.len(),
{
    if t.len() == 0 {
        Seq::empty()
    } else {
        let e = t.last();
        let rest = integrals(ar, t.drop_last());
        if integrates(tags(e)) {
            rest.push((e.0.name@, ar.total_area(e.0.data@)))
        } else {
            rest
        }
    }
}

/// All join topics of all series, in order.
pub open spec fn all_topics<V>(t: Seq<Tagged<V>>) -> Seq<Seq<char>>
    decreases t.len(),
{
    if t.len() == 0 {
        Seq::empty()
    } else {
        all_topics(t.drop_last()) + join_topics(tags(t.last()))
    }
}

/// The names of the series that carry the x-axis marker.
pub open spec fn xaxis_names<V>(t: Seq<Tagged<V>>) -> Seq<Seq<char>>
    decreases t.len(),
{
    if t.len() == 0 {
        Seq::empty()
    } else if tags(t.last()).contains(AttributeView::Xaxis) {
        xaxis_names(t.drop_last()).push(t.last().0.name@)
    } else {
        xaxis_names(t.drop_last())
    }
}

/// Whether some series carries the attribute `a`.
pub open spec fn any_tagged<V>(t: Seq<Tagged<V>>, a: AttributeView) -> bool {
    exists|i: int| 0 <= i < t.len() && #[trigger] tags(t[i]).contains(a)
}

impl<V: Copy> Graph<V> {
    /// Applies each series' transform, drops hidden series, and gathers the
    /// graph-level flags and metadata.
    pub fn assemble<F: Fn(Op, V, V) -> V, E: Fn(V, V) -> bool>(
        name: String,
        unit: String,
        x_unit: String,
        tagged: &Vec<Tagged<V>>,
        virt: bool,
        ar: &Arithmetic<V, F, E>,
    ) -> (r: Result<Graph<V>, AssemblyError>)
        requires
            ar.wf(),
        ensures
            first_error(*ar, tagged@) is Some ==> r == Err::<Graph<V>, AssemblyError>(
                first_error(*ar, tagged@)->0,
            ),
            first_error(*ar, tagged@) is None && visible(*ar, tagged@).len() == 0 ==> r == Err::<
                Graph<V>,
                AssemblyError,
            >(AssemblyError::EmptySeriesSet),
            first_error(*ar, tagged@) is None && visible(*ar, tagged@).len() > 0 ==> r is Ok,
            r is Ok ==> ({
                let g = r->Ok_0;
                &&& g.wf()
                &&& g.name@ == name@
                &&& g.unit@ == unit@
                &&& g.x_unit@ == x_unit@
                &&& g.virt == virt
                &&& series_views(g.series@) == visible(*ar, tagged@)
                &&& g.area == any_tagged(tagged@, AttributeView::Area)
                &&& g.zero == any_tagged(tagged@, AttributeView::Zero)
                &&& g.log == any_tagged(tagged@, AttributeView::Log)
                &&& string_views(g.join_topics@) == all_topics(tagged@)
                &&& g.joinable == (all_topics(tagged@).len() > 0)
                &&& string_views(g.xaxis_series@) == xaxis_names(tagged@)
                &&& total_views(g.integrals@) == integrals(*ar, tagged@)
            }),
    {
        let ghost t = tagged@;
        let mut series: Vec<Series<V>> = Vec::new();
        let mut topics: Vec<String> = Vec::new();
        let mut xaxis: Vec<String> = Vec::new();
        let mut totals: Vec<(String, V)> = Vec::new();
        let mut area = false;
        let mut zero = false;
        let mut log = false;
        let n = tagged.len();
        let mut i: usize = 0;
        while i < n
            invariant
                ar.wf(),
                t == tagged@,
                n == t.len(),
                0 <= i <= n,
                first_error(*ar, t.subrange(0, i as int)) is None,
                series_views(series@) == visible(*ar, t.subrange(0, i as int)),
                string_views(topics@) == all_topics(t.subrange(0, i as int)),
                string_views(xaxis@) == xaxis_names(t.subrange(0, i as int)),
                total_views(totals@) == integrals(*ar, t.subrange(0, i as int)),
                area == exists|k: int| 0 <= k < i && #[trigger] tags(t[k]).contains(AttributeView::Area),
                zero == exists|k: int| 0 <= k < i && #[trigger] tags(t[k]).contains(AttributeView::Zero),
                log == exists|k: int| 0 <= k < i && #[trigger] tags(t[k]).contains(AttributeView::Log),
            decreases n - i,
        {
            let ghost pre = t.subrange(0, i as int);
            let ghost cur = t.subrange(0, i + 1);
            assert(cur.drop_last() =~= pre);
            assert(cur.last() == t[i as int]);
            let entry = &tagged[i];
            let d = Directives::collect(&entry.1);
            let mut count: u8 = 0;
            if d.differentiate {
                count += 1;
            }
            if d.integrate {
                count += 1;
            }
            if d.delta {
                count += 1;
            }
            if count >= 2 {
                proof {
                    lemma_first_error_prefix(*ar, t, i + 1);
                }
                return Err(AssemblyError::AmbiguousTransform);
            }
            let s: Series<V>;
            if d.differentiate {
                match entry.0.differentiate(ar) {
                    Ok(x) => {
                        s = x;
                    },
                    Err(err) => {
                        proof {
                            lemma_first_error_prefix(*ar, t, i + 1);
                        }
                        return Err(AssemblyError::Transform(err));
                    },
                }
            } else if d.integrate {
                let (x, total) = entry.0.integrate(ar);
                let ghost old_totals = totals@;
                totals.push((entry.0.name.clone(), total));
                assert(total_views(totals@) =~= total_views(old_totals).push(
                    (entry.0.name@, total),
                ));
                s = x;
            } else if d.delta {
                s = entry.0.delta(ar);
            } else {
                s = entry.0.copied();
            }
            if !d.hide {
                let ghost old_series = series@;
                series.push(s);
                assert(series_views(series@) =~= series_views(old_series).push(
                    (s.name@, s.data@),
                ));
            }
            let ghost old_topics = topics@;
            let mut more = d.topics;
            topics.append(&mut more);
            assert(string_views(topics@) =~= string_views(old_topics) + join_topics(tags(t[i as int])));
            if d.xaxis {
                let ghost old_xaxis = xaxis@;
                xaxis.push(entry.0.name.clone());
                assert(string_views(xaxis@) =~= string_views(old_xaxis).push(entry.0.name@));
            }
            area = area || d.area;
            zero = zero || d.zero;
            log = log || d.log;
            i += 1;
        }
        assert(t.subrange(0, n as int) =~= t);
        if series.len() == 0 {
            return Err(AssemblyError::EmptySeriesSet);
        }
        let (name_folder, name_base) = split_name(name.as_str());
        let joinable = topics.len() > 0;
        Ok(
            Graph {
                name,
                name_base,
                name_folder,
                unit,
                x_unit,
                series,
                virt,
                joinable,
                area,
                zero,
                log,
                join_topics: topics,
                xaxis_series: xaxis,
                integrals: totals,
            },
        )
    }
}

/// The kind of chart drawn.
#[derive(Debug, Clone, Copy, PartialEq, Eq, Structural)]
pub enum ChartKind {
    Line,
    Area,
}

/// Why a graph could not be rendered.
#[derive(Debug, Clone, Copy, PartialEq, Eq, Structural)]
pub enum RenderError {
    /// A visible series has no points.
    EmptySeries,
}

/// The content of a chart description, ready to be written out as markup.
#[derive(Debug)]
pub struct ChartSpec<V> {
    /// The identifier of the chart's container: the graph's full name.
    pub container: String,
    pub kind: ChartKind,
    pub title: String,
    pub subtitle: String,
    /// The explicit minimum of the y axis, if any.
    pub y_axis_min: Option<i64>,
    pub x_title: String,
    pub series: Vec<Series<V>>,
}

/// The title: the base name with the unit in parentheses.
pub open spec fn title_of(name_base: Seq<char>, unit: Seq<char>) -> Seq<char> {
    name_base + " ("@ + unit + ")"@
}

/// The subtitle: the full name, bracketed when the graph is synthesized.
pub open spec fn subtitle_of(name: Seq<char>, virt: bool) -> Seq<char> {
    if virt {
        "[ "@ + name + " ]"@
    } else {
        name
    }
}

/// Whether some series has no points.
pub open spec fn has_empty_series<V>(s: Seq<Series<V>>) -> bool {
    exists|i: int| 0 <= i < s.len() && #[trigger] s[i].data@.len() == 0
}

impl<V> Graph<V> {
    /// Describes the chart for this graph.
    pub fn gen_highchart(self) -> (r: Result<ChartSpec<V>, RenderError>)
        ensures
            has_empty_series(self.series@) ==> r == Err::<ChartSpec<V>, RenderError>(
                RenderError::EmptySeries,
            ),
            !has_empty_series(self.series@) ==> r is Ok,
            r is Ok ==> ({
                let c = r->Ok_0;
                &&& c.container@ == self.name@
                &&& c.kind == (if self.area { ChartKind::Area } else { ChartKind::Line })
                &&& c.title@ == title_of(self.name_base@, self.unit@)
                &&& c.subtitle@ == subtitle_of(self.name@, self.virt)
                &&& c.y_axis_min == (if self.zero { Some(0i64) } else { None })
                &&& c.x_title@ == self.x_unit@
                &&& c.series@ == self.series@
            }),
    {
        let n = self.series.len();
        let mut i: usize = 0;
        while i < n
            invariant
                n == self.series@.len(),
                0 <= i <= n,
                forall|j: int| 0 <= j < i ==> #[trigger] self.series@[j].data@.len() > 0,
            decreases n - i,
        {
            if self.series[i].data.len() == 0 {
                return Err(RenderError::EmptySeries);
            }
            i += 1;
        }
        let kind = if self.area {
            ChartKind::Area
        } else {
            ChartKind::Line
        };
        let title = self.name_base.clone().concat(" (").concat(self.unit.as_str()).concat(")");
        let subtitle = if self.virt {
            String::from_str("[ ").concat(self.name.as_str()).concat(" ]")
        } else {
            self.name.clone()
        };
        let y_axis_min = if self.zero {
            Some(0i64)
        } else {
            None
        };
        Ok(
            ChartSpec {
                container: self.name,
                kind,
                title,
                subtitle,
                y_axis_min,
                x_title: self.x_unit,
                series: self.series,
            },
        )
    }
}

/// When every series is hidden, no series is left visible, so assembling fails
/// with an empty series set unless a transform has failed first.
pub proof fn lemma_all_hidden_leaves_nothing<V: Copy, F: Fn(Op, V, V) -> V, E: Fn(V, V) -> bool>(
    ar: Arithmetic<V, F, E>,
    t: Seq<Tagged<V>>,
)
    requires
        forall|i: int| 0 <= i < t.len() ==> #[trigger] tags(t[i]).contains(AttributeView::Hide),
    ensures
        visible(ar, t).len() == 0,
    decreases t.len(),
{
    if t.len() > 0 {
        let rest = t.drop_last();
        assert forall|i: int| 0 <= i < rest.len() implies #[trigger] tags(rest[i]).contains(
            AttributeView::Hide,
        ) by {
            assert(rest[i] == t[i]);
        }
        lemma_all_hidden_leaves_nothing(ar, rest);
        assert(tags(t[t.len() - 1]).contains(AttributeView::Hide));
    }
}

/// Once a prefix has failed, the whole list fails with the same error.
pub proof fn lemma_first_error_prefix<V: Copy, F: Fn(Op, V, V) -> V, E: Fn(V, V) -> bool>(
    ar: Arithmetic<V, F, E>,
    t: Seq<Tagged<V>>,
    i: int,
)
    requires
        0 <= i <= t.len(),
        first_error(ar, t.subrange(0, i)) is Some,
    ensures
        first_error(ar, t) == first_error(ar, t.subrange(0, i)),
    decreases t.len() - i,
{
    if i < t.len() {
        assert(t.subrange(0, i + 1).drop_last() =~= t.subrange(0, i));
        lemma_first_error_prefix(ar, t, i + 1);
    } else {
        assert(t.subrange(0, i) =~= t);
    }
}

} // verus!
