use vstd::prelude::*;

verus! {

/// The arithmetic operations that the transforms are built from.
#[derive(Debug, Clone, Copy, PartialEq, Eq, Structural)]
pub enum Op {
    Add,
    Sub,
    Mul,
    Div,
}

/// The number system a series is computed in: two constants, a binary operation
/// selected by [`Op`], and an equality test on coordinates.
pub struct Arithmetic<V, F, E> {
    pub zero: V,
    pub half: V,
    pub op: F,
    pub same: E,
}

/// The result of `f` on `(op, a, b)`; well defined when `f` is deterministic.
pub open spec fn apply<V, F: Fn(Op, V, V) -> V>(f: F, op: Op, a: V, b: V) -> V {
    choose|r: V| f.ensures((op, a, b), r)
}

impl<V: Copy, F: Fn(Op, V, V) -> V, E: Fn(V, V) -> bool> Arithmetic<V, F, E> {
    /// Both functions accept every argument and give one result for each.
    pub open spec fn wf(&self) -> bool {
        &&& forall|op: Op, a: V, b: V| #[trigger] self.op.requires((op, a, b))
        &&& forall|op: Op, a: V, b: V, r1: V, r2: V|
            #[trigger] self.op.ensures((op, a, b), r1) && #[trigger] self.op.ensures((op, a, b), r2)
                ==> r1 == r2
        &&& forall|a: V, b: V| #[trigger] self.same.requires((a, b))
        &&& forall|a: V, b: V, r1: bool, r2: bool|
            #[trigger] self.same.ensures((a, b), r1) && #[trigger] self.same.ensures((a, b), r2)
                ==> r1 == r2
    }

    pub open spec fn add_spec(&self, a: V, b: V) -> V {
        apply(self.op, Op::Add, a, b)
    }

    pub open spec fn sub_spec(&self, a: V, b: V) -> V {
        apply(self.op, Op::Sub, a, b)
    }

    pub open spec fn mul_spec(&self, a: V, b: V) -> V {
        apply(self.op, Op::Mul, a, b)
    }

    pub open spec fn div_spec(&self, a: V, b: V) -> V {
        apply(self.op, Op::Div, a, b)
    }

    pub open spec fn same_spec(&self, a: V, b: V) -> bool {
        self.same.ensures((a, b), true)
    }

    pub fn calc(&self, op: Op, a: V, b: V) -> (r: V)
        requires
            self.wf(),
        ensures
            r == apply(self.op, op, a, b),
    {
        let r = (self.op)(op, a, b);
        assert(self.op.ensures((op, a, b), r));
        r
    }

    pub fn is_same(&self, a: V, b: V) -> (r: bool)
        requires
            self.wf(),
        ensures
            r == self.same_spec(a, b),
    {
        let r = (self.same)(a, b);
        assert(self.same.ensures((a, b), r));
        r
    }

    /// Point-to-point differences: the first point passes through, each later
    /// point carries its y minus its predecessor's.
    pub open spec fn delta_points(&self, d: Seq<(V, V)>) -> Seq<(V, V)> {
        Seq::new(
            d.len(),
            |i: int|
                if i == 0 {
                    d[0]
                } else {
                    (d[i].0, self.sub_spec(d[i].1, d[i - 1].1))
                },
        )
    }

    /// The slope of each interval, placed at the interval's right end.
    pub open spec fn slope_points(&self, d: Seq<(V, V)>) -> Seq<(V, V)> {
        Seq::new(
            (d.len() - 1) as nat,
            |i: int|
                (
                    d[i + 1].0,
                    self.div_spec(
                        self.sub_spec(d[i + 1].1, d[i].1),
                        self.sub_spec(d[i + 1].0, d[i].0),
                    ),
                ),
        )
    }

    /// Whether some interval between consecutive points has zero width.
    pub open spec fn has_zero_width(&self, d: Seq<(V, V)>) -> bool {
        exists|i: int| 0 <= i < d.len() - 1 && #[trigger] self.same_spec(d[i + 1].0, d[i].0)
    }

    /// The trapezoid over the interval that ends at point `i`.
    pub open spec fn trapezoid(&self, d: Seq<(V, V)>, i: int) -> V {
        self.mul_spec(
            self.mul_spec(self.half, self.add_spec(d[i].1, d[i - 1].1)),
            self.sub_spec(d[i].0, d[i - 1].0),
        )
    }

    /// The cumulative trapezoidal area up to point `i`.
    pub open spec fn area(&self, d: Seq<(V, V)>, i: nat) -> V
        decreases i,
    {
        if i == 0 {
            self.zero
        } else {
            self.add_spec(self.area(d, (i - 1) as nat), self.trapezoid(d, i as int))
        }
    }

    /// Each point with the area accumulated up to it.
    pub open spec fn area_points(&self, d: Seq<(V, V)>) -> Seq<(V, V)> {
        Seq::new(d.len(), |i: int| (d[i].0, self.area(d, i as nat)))
    }

    /// The area under the whole series; zero when it has no points.
    pub open spec fn total_area(&self, d: Seq<(V, V)>) -> V {
        if d.len() == 0 {
            self.zero
        } else {
            self.area(d, (d.len() - 1) as nat)
        }
    }
}

/// The transforms are functions of the points and the arithmetic alone: applied to
/// equal inputs they give identical outputs, so calling one twice gives the same result.
pub proof fn lemma_transforms_deterministic<V: Copy, F: Fn(Op, V, V) -> V, E: Fn(V, V) -> bool>(
    ar: Arithmetic<V, F, E>,
    a: Seq<(V, V)>,
    b: Seq<(V, V)>,
)
    requires
        a == b,
    ensures
        ar.slope_points(a) == ar.slope_points(b),
        ar.has_zero_width(a) == ar.has_zero_width(b),
        ar.area_points(a) == ar.area_points(b),
        ar.total_area(a) == ar.total_area(b),
        ar.delta_points(a) == ar.delta_points(b),
{
}

/// Why a transform could not be applied.
#[derive(Debug, Clone, Copy, PartialEq, Eq, Structural)]
pub enum TransformError {
    InsufficientPoints,
    DegenerateDomain,
}

/// A named sequence of `(x, y)` points, ordered by x.
#[derive(Debug)]
pub struct Series<V> {
    pub name: String,
    pub data: Vec<(V, V)>,
}

impl<V: Copy> Series<V> {
    /// A fresh series with the same name and points.
    pub fn copied(&self) -> (r: Series<V>)
        ensures
            r.name@ == self.name@,
            r.data@ == self.data@,
    {
        let n = self.data.len();
        let mut out: Vec<(V, V)> = Vec::new();
        let mut i: usize = 0;
        while i < n
            invariant
                n == self.data@.len(),
                0 <= i <= n,
                out@ == self.data@.subrange(0, i as int),
            decreases n - i,
        {
            out.push(self.data[i]);
            i += 1;
            assert(out@ =~= self.data@.subrange(0, i as int));
        }
        assert(self.data@.subrange(0, n as int) =~= self.data@);
        Series { name: self.name.clone(), data: out }
    }

    /// The discrete derivative: one point per interval.
    pub fn differentiate<F: Fn(Op, V, V) -> V, E: Fn(V, V) -> bool>(
        &self,
        ar: &Arithmetic<V, F, E>,
    ) -> (r: Result<Series<V>, TransformError>)
        requires
            ar.wf(),
        ensures
            self.data@.len() < 2 ==> r == Err::<Series<V>, TransformError>(
                TransformError::InsufficientPoints,
            ),
            self.data@.len() >= 2 && ar.has_zero_width(self.data@) ==> r == Err::<
                Series<V>,
                TransformError,
            >(TransformError::DegenerateDomain),
            self.data@.len() >= 2 && !ar.has_zero_width(self.data@) ==> r is Ok
                && r->Ok_0.name@ == self.name@ && r->Ok_0.data@ == ar.slope_points(self.data@),
    {
        let n = self.data.len();
        if n < 2 {
            return Err(TransformError::InsufficientPoints);
        }
        let mut out: Vec<(V, V)> = Vec::new();
        let mut i: usize = 0;
        while i + 1 < n
            invariant
                ar.wf(),
                n == self.data@.len(),
                n >= 2,
                0 <= i < n,
                out@.len() == i,
                forall|j: int| 0 <= j < i ==> !ar.same_spec(#[trigger] self.data@[j + 1].0, self.data@[j].0),
                forall|j: int| 0 <= j < i ==> out@[j] == ar.slope_points(self.data@)[j],
            decreases n - i,
        {
            let (x0, y0) = self.data[i];
            let (x1, y1) = self.data[i + 1];
            if ar.is_same(x1, x0) {
                assert(ar.same_spec(self.data@[i as int + 1].0, self.data@[i as int].0));
                return Err(TransformError::DegenerateDomain);
            }
            let dy = ar.calc(Op::Sub, y1, y0);
            let dx = ar.calc(Op::Sub, x1, x0);
            let slope = ar.calc(Op::Div, dy, dx);
            out.push((x1, slope));
            i += 1;
        }
        assert(!ar.has_zero_width(self.data@));
        assert(out@ =~= ar.slope_points(self.data@));
        Ok(Series { name: self.name.clone(), data: out })
    }

    /// The cumulative trapezoidal integral, and the total area.
    pub fn integrate<F: Fn(Op, V, V) -> V, E: Fn(V, V) -> bool>(
        &self,
        ar: &Arithmetic<V, F, E>,
    ) -> (r: (Series<V>, V))
        requires
            ar.wf(),
        ensures
            r.0.name@ == self.name@,
            r.0.data@ == ar.area_points(self.data@),
            r.1 == ar.total_area(self.data@),
    {
        let n = self.data.len();
        let mut out: Vec<(V, V)> = Vec::new();
        let mut total: V = ar.zero;
        let mut i: usize = 0;
        while i < n
            invariant
                ar.wf(),
                n == self.data@.len(),
                0 <= i <= n,
                out@.len() == i,
                i > 0 ==> total == ar.area(self.data@, (i - 1) as nat),
                i == 0 ==> total == ar.zero,
                forall|j: int| 0 <= j < i ==> out@[j] == ar.area_points(self.data@)[j],
            decreases n - i,
        {
            let (x1, y1) = self.data[i];
            if i > 0 {
                let (x0, y0) = self.data[i - 1];
                let sum = ar.calc(Op::Add, y1, y0);
                let height = ar.calc(Op::Mul, ar.half, sum);
                let width = ar.calc(Op::Sub, x1, x0);
                let piece = ar.calc(Op::Mul, height, width);
                total = ar.calc(Op::Add, total, piece);
            }
            out.push((x1, total));
            i += 1;
        }
        assert(out@ =~= ar.area_points(self.data@));
        (Series { name: self.name.clone(), data: out }, total)
    }

    /// Point-to-point differences of y, not divided by the interval width.
    pub fn delta<F: Fn(Op, V, V) -> V, E: Fn(V, V) -> bool>(&self, ar: &Arithmetic<V, F, E>) -> (r:
        Series<V>)
        requires
            ar.wf(),
        ensures
            r.name@ == self.name@,
            r.data@ == ar.delta_points(self.data@),
    {
        let n = self.data.len();
        let mut out: Vec<(V, V)> = Vec::new();
        let mut i: usize = 0;
        while i < n
            invariant
                ar.wf(),
                n == self.data@.len(),
                0 <= i <= n,
                out@.len() == i,
                forall|j: int| 0 <= j < i ==> out@[j] == ar.delta_points(self.data@)[j],
            decreases n - i,
        {
            let (x1, y1) = self.data[i];
            if i == 0 {
                out.push((x1, y1));
            } else {
                let (_, y0) = self.data[i - 1];
                out.push((x1, ar.calc(Op::Sub, y1, y0)));
            }
            i += 1;
        }
        assert(out@ =~= ar.delta_points(self.data@));
        Series { name: self.name.clone(), data: out }
    }
}

} // verus!
