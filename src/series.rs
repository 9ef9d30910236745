//! Tables of measurements indexed by (configuration, slice), and the
//! Wilson-flow observables that come with a flow-time grid.

use vstd::prelude::*;

verus! {

/// A rectangular table: one row per configuration, `each_len` values per row.
pub struct Series<T> {
    rows: Vec<Vec<T>>,
    each_len: usize,
}

impl<T> View for Series<T> {
    type V = Seq<Seq<T>>;

    closed spec fn view(&self) -> Seq<Seq<T>> {
        self.rows@.map_values(|r: Vec<T>| r@)
    }
}

impl<T: Copy> Series<T> {
    /// Number of values in each row.
    pub closed spec fn row_len(&self) -> nat {
        self.each_len as nat
    }

    /// Every row holds `row_len` values.
    pub open spec fn wf(&self) -> bool {
        forall|i: int| 0 <= i < self@.len() ==> (#[trigger] self@[i]).len() == self.row_len()
    }

    /// The table of `rows`, when each of them holds `each_len` values.
    pub fn new(rows: Vec<Vec<T>>, each_len: usize) -> (r: Option<Series<T>>)
        ensures
            r.is_some() <==> forall|i: int| 0 <= i < rows.len() ==> (#[trigger] rows[i]).len()
                == each_len,
            r matches Some(s) ==> s.wf() && s@ == rows@.map_values(|r: Vec<T>| r@) && s.row_len()
                == each_len,
    {
        let mut i: usize = 0;
        while i < rows.len()
            invariant
                i <= rows.len(),
                forall|j: int| 0 <= j < i ==> (#[trigger] rows[j]).len() == each_len,
            decreases rows.len() - i,
        {
            if rows[i].len() != each_len {
                return None;
            }
            i = i + 1;
        }
        Some(Series { rows, each_len })
    }

    /// Number of configurations.
    pub fn nconfs(&self) -> (r: usize)
        ensures
            r == self@.len(),
    {
        self.rows.len()
    }

    /// Number of values per configuration.
    pub fn each_len(&self) -> (r: usize)
        ensures
            r == self.row_len(),
    {
        self.each_len
    }

    /// The value of configuration `conf` at slice `slice`.
    pub fn value(&self, conf: usize, slice: usize) -> (r: T)
        requires
            self.wf(),
            conf < self@.len(),
            slice < self.row_len(),
        ensures
            r == self@[conf as int][slice as int],
    {
        assert(self@[conf as int].len() == self.row_len());
        self.rows[conf][slice]
    }

    /// The table without its first `k` configurations.
    pub fn thermalise(self, k: usize) -> (r: Series<T>)
        requires
            self.wf(),
            k <= self@.len(),
        ensures
            r.wf(),
            r.row_len() == self.row_len(),
            r@ == self@.subrange(k as int, self@.len() as int),
    {
        let mut rows = self.rows;
        let kept = rows.split_off(k);
        let r = Series { rows: kept, each_len: self.each_len };
        proof {
            assert(r@ =~= self@.subrange(k as int, self@.len() as int));
        }
        r
    }

    /// For each slice, the values of the configurations that `d` selects, in
    /// the order of `d` and with its repetitions.
    pub fn resample_columns(&self, d: &Vec<usize>) -> (r: Vec<Vec<T>>)
        requires
            self.wf(),
            forall|i: int| 0 <= i < d.len() ==> #[trigger] d[i] < self@.len(),
        ensures
            r.len() == self.row_len(),
            forall|c: int|
                0 <= c < r.len() ==> (#[trigger] r[c]).len() == d.len() && forall|i: int|
                    0 <= i < d.len() ==> #[trigger] r[c][i] == self@[d[i] as int][c],
    {
        let mut r: Vec<Vec<T>> = Vec::with_capacity(self.each_len);
        let mut c: usize = 0;
        while c < self.each_len
            invariant
                self.wf(),
                forall|i: int| 0 <= i < d.len() ==> #[trigger] d[i] < self@.len(),
                c <= self.each_len,
                r.len() == c,
                forall|cc: int|
                    0 <= cc < c ==> (#[trigger] r[cc]).len() == d.len() && forall|i: int|
                        0 <= i < d.len() ==> #[trigger] r[cc][i] == self@[d[i] as int][cc],
            decreases self.each_len - c,
        {
            let mut col: Vec<T> = Vec::with_capacity(d.len());
            let mut i: usize = 0;
            while i < d.len()
                invariant
                    self.wf(),
                    forall|j: int| 0 <= j < d.len() ==> #[trigger] d[j] < self@.len(),
                    c < self.each_len,
                    i <= d.len(),
                    col.len() == i,
                    forall|j: int| 0 <= j < i ==> #[trigger] col[j] == self@[d[j] as int][c as int],
                decreases d.len() - i,
            {
                let conf = d[i];
                assert(self@[conf as int].len() == self.row_len());
                col.push(self.rows[conf][c]);
                i = i + 1;
            }
            r.push(col);
            c = c + 1;
        }
        r
    }
}

/// The flow observables that a flow file carries.
#[derive(Clone, Copy, Debug, PartialEq, Eq, Structural)]
pub enum FlowObservable {
    /// Flow time squared times the symmetric energy density.
    T2Esym,
    /// The topological charge.
    TopologicalCharge,
}

/// Wilson-flow data: the flow-time grid and one table per observable, with
/// one value per grid point in each row.
pub struct FlowSeries<T> {
    t: Vec<T>,
    t2_esym: Series<T>,
    tc: Series<T>,
}

impl<T: Copy> FlowSeries<T> {
    /// The flow-time grid.
    pub closed spec fn grid(&self) -> Seq<T> {
        self.t@
    }

    /// The table of one observable.
    pub closed spec fn table(&self, which: FlowObservable) -> Series<T> {
        match which {
            FlowObservable::T2Esym => self.t2_esym,
            FlowObservable::TopologicalCharge => self.tc,
        }
    }

    /// Both tables are rectangular over the grid and share their
    /// configurations.
    pub open spec fn wf(&self) -> bool {
        &&& self.table(FlowObservable::T2Esym).wf()
        &&& self.table(FlowObservable::TopologicalCharge).wf()
        &&& self.table(FlowObservable::T2Esym).row_len() == self.grid().len()
        &&& self.table(FlowObservable::TopologicalCharge).row_len() == self.grid().len()
        &&& self.table(FlowObservable::T2Esym)@.len() == self.table(
            FlowObservable::TopologicalCharge,
        )@.len()
    }

    /// Flow data over grid `t`, when both tables are rectangular over it and
    /// have the same number of configurations.
    pub fn new(t: Vec<T>, t2_esym: Series<T>, tc: Series<T>) -> (r: Option<FlowSeries<T>>)
        requires
            t2_esym.wf(),
            tc.wf(),
        ensures
            r.is_some() <==> (t2_esym.row_len() == t.len() && tc.row_len() == t.len()
                && t2_esym@.len() == tc@.len()),
            r matches Some(f) ==> f.wf() && f.grid() == t@ && f.table(FlowObservable::T2Esym)
                == t2_esym && f.table(FlowObservable::TopologicalCharge) == tc,
    {
        if t2_esym.each_len() != t.len() || tc.each_len() != t.len() || t2_esym.nconfs()
            != tc.nconfs() {
            None
        } else {
            Some(FlowSeries { t, t2_esym, tc })
        }
    }

    /// The flow-time grid.
    pub fn t(&self) -> (r: &Vec<T>)
        ensures
            r@ == self.grid(),
    {
        &self.t
    }

    /// The table of the observable `which`.
    pub fn observable(&self, which: FlowObservable) -> (r: &Series<T>)
        ensures
            *r == self.table(which),
    {
        match which {
            FlowObservable::T2Esym => &self.t2_esym,
            FlowObservable::TopologicalCharge => &self.tc,
        }
    }

    /// Number of configurations.
    pub fn nconfs(&self) -> (r: usize)
        requires
            self.wf(),
        ensures
            r == self.table(FlowObservable::T2Esym)@.len(),
            r == self.table(FlowObservable::TopologicalCharge)@.len(),
    {
        self.t2_esym.nconfs()
    }

    /// The flow data without its first `k` configurations.
    pub fn thermalise(self, k: usize) -> (r: FlowSeries<T>)
        requires
            self.wf(),
            k <= self.table(FlowObservable::T2Esym)@.len(),
        ensures
            r.wf(),
            r.grid() == self.grid(),
            forall|w: FlowObservable|
                (#[trigger] r.table(w))@ == self.table(w)@.subrange(
                    k as int,
                    self.table(w)@.len() as int,
                ) && r.table(w).row_len() == self.table(w).row_len(),
    {
        let FlowSeries { t, t2_esym, tc } = self;
        FlowSeries { t, t2_esym: t2_esym.thermalise(k), tc: tc.thermalise(k) }
    }
}

} // verus!
