//! Sorting parameters: directions, null placement, and the ordered list of
//! sort fields, with a whitelist check for fields given at runtime.
use vstd::prelude::*;
use crate::text::{str_eq, string_of};

verus! {

/// Direction of one ORDER BY entry.
#[derive(Debug, Clone, Copy, PartialEq, Eq, Structural)]
pub enum SortDirection {
    Asc,
    Desc,
}

impl Default for SortDirection {
    fn default() -> (r: Self)
        ensures
            r == SortDirection::Asc,
    {
        SortDirection::Asc
    }
}

/// Where NULL values are placed in one ORDER BY entry.
#[derive(Debug, Clone, Copy, PartialEq, Eq, Structural)]
pub enum NullOrdering {
    First,
    Last,
    Default,
}

impl Default for NullOrdering {
    fn default() -> (r: Self)
        ensures
            r == NullOrdering::Default,
    {
        NullOrdering::Default
    }
}

/// Whether a sort field was given as a literal (safe) or at runtime (to be whitelisted).
#[derive(Debug, Clone, Copy, PartialEq, Eq, Structural)]
enum SortSafety {
    Safe,
    Unsafe,
}

impl SortDirection {
    /// True for `Asc`.
    pub fn is_asc(self) -> (r: bool)
        ensures
            r == (self == SortDirection::Asc),
    {
        matches!(self, Self::Asc)
    }

    /// True for `Desc`.
    pub fn is_desc(self) -> (r: bool)
        ensures
            r == (self == SortDirection::Desc),
    {
        matches!(self, Self::Desc)
    }

    /// The opposite direction.
    pub fn flip(self) -> (r: Self)
        ensures
            r == self.flipped(),
    {
        match self {
            Self::Asc => Self::Desc,
            Self::Desc => Self::Asc,
        }
    }

    /// The opposite direction, in specifications.
    pub open spec fn flipped(self) -> SortDirection {
        match self {
            SortDirection::Asc => SortDirection::Desc,
            SortDirection::Desc => SortDirection::Asc,
        }
    }
}

/// Flipping a direction twice gives it back, and a flip always changes it.
pub proof fn lemma_flip_involutive(d: SortDirection)
    ensures
        d.flipped().flipped() == d,
        d.flipped() != d,
{
}

impl NullOrdering {
    /// `Some(true)` for `First`, `Some(false)` for `Last`, `None` for `Default`.
    pub fn as_bool_option(self) -> (r: Option<bool>)
        ensures
            r == self.as_bool_spec(),
    {
        match self {
            Self::First => Some(true),
            Self::Last => Some(false),
            Self::Default => None,
        }
    }

    /// The optional "nulls first" flag this ordering stands for.
    pub open spec fn as_bool_spec(self) -> Option<bool> {
        match self {
            NullOrdering::First => Some(true),
            NullOrdering::Last => Some(false),
            NullOrdering::Default => None,
        }
    }

    /// True for `First`.
    pub fn is_first(self) -> (r: bool)
        ensures
            r == (self == NullOrdering::First),
    {
        matches!(self, Self::First)
    }

    /// True for `Last`.
    pub fn is_last(self) -> (r: bool)
        ensures
            r == (self == NullOrdering::Last),
    {
        matches!(self, Self::Last)
    }

    /// True for `Default`.
    pub fn is_default(self) -> (r: bool)
        ensures
            r == (self == NullOrdering::Default),
    {
        matches!(self, Self::Default)
    }
}

/// The abstract content of one ORDER BY entry.
pub struct SortView {
    pub field: Seq<char>,
    pub direction: SortDirection,
    pub nulls: NullOrdering,
    /// Whether the field name was given at runtime and must be whitelisted.
    pub runtime: bool,
}

impl SortView {
    /// This entry with its null placement replaced.
    pub open spec fn with_nulls(self, n: NullOrdering) -> SortView {
        SortView { nulls: n, ..self }
    }
}

/// One ORDER BY entry.
#[derive(Debug)]
pub struct Sort {
    pub field: String,
    pub direction: SortDirection,
    pub nulls: NullOrdering,
    safety_type: SortSafety,
}

impl View for Sort {
    type V = SortView;

    closed spec fn view(&self) -> SortView {
        SortView {
            field: self.field@,
            direction: self.direction,
            nulls: self.nulls,
            runtime: self.safety_type == SortSafety::Unsafe,
        }
    }
}

impl Clone for Sort {
    fn clone(&self) -> (r: Self)
        ensures
            r@ == self@,
    {
        Sort {
            field: self.field.clone(),
            direction: self.direction,
            nulls: self.nulls,
            safety_type: self.safety_type,
        }
    }
}

impl Sort {
    /// A safe entry on `field` in `direction`, with default null placement.
    pub fn new(field: &str, direction: SortDirection) -> (r: Self)
        ensures
            r@.field == field@,
            r@.direction == direction,
            r@.nulls == NullOrdering::Default,
            !r@.runtime,
    {
        Sort {
            field: string_of(field),
            direction,
            nulls: NullOrdering::Default,
            safety_type: SortSafety::Safe,
        }
    }

    /// An entry on a runtime field name, to be checked against a whitelist.
    pub fn new_unsafe(field: &str, direction: SortDirection) -> (r: Self)
        ensures
            r@.field == field@,
            r@.direction == direction,
            r@.nulls == NullOrdering::Default,
            r@.runtime,
    {
        Sort {
            field: string_of(field),
            direction,
            nulls: NullOrdering::Default,
            safety_type: SortSafety::Unsafe,
        }
    }

    /// The column this entry orders by.
    pub fn field_name(&self) -> (r: &String)
        ensures
            r@ == self@.field,
    {
        &self.field
    }

    /// Whether this entry was added with a runtime field name.
    pub fn is_unsafe(&self) -> (r: bool)
        ensures
            r == self@.runtime,
    {
        matches!(self.safety_type, SortSafety::Unsafe)
    }

    /// A safe ascending entry.
    pub fn asc(field: &str) -> (r: Self)
        ensures
            r@.field == field@,
            r@.direction == SortDirection::Asc,
            r@.nulls == NullOrdering::Default,
            !r@.runtime,
    {
        Self::new(field, SortDirection::Asc)
    }

    /// A safe descending entry.
    pub fn desc(field: &str) -> (r: Self)
        ensures
            r@.field == field@,
            r@.direction == SortDirection::Desc,
            r@.nulls == NullOrdering::Default,
            !r@.runtime,
    {
        Self::new(field, SortDirection::Desc)
    }

    /// An ascending entry on a runtime field name.
    pub fn asc_unsafe(field: &str) -> (r: Self)
        ensures
            r@.field == field@,
            r@.direction == SortDirection::Asc,
            r@.nulls == NullOrdering::Default,
            r@.runtime,
    {
        Self::new_unsafe(field, SortDirection::Asc)
    }

    /// A descending entry on a runtime field name.
    pub fn desc_unsafe(field: &str) -> (r: Self)
        ensures
            r@.field == field@,
            r@.direction == SortDirection::Desc,
            r@.nulls == NullOrdering::Default,
            r@.runtime,
    {
        Self::new_unsafe(field, SortDirection::Desc)
    }

    /// The same entry with nulls placed first.
    pub fn nulls_first(self) -> (r: Self)
        ensures
            r@ == self@.with_nulls(NullOrdering::First),
    {
        let mut s = self;
        s.nulls = NullOrdering::First;
        s
    }

    /// The same entry with nulls placed last.
    pub fn nulls_last(self) -> (r: Self)
        ensures
            r@ == self@.with_nulls(NullOrdering::Last),
    {
        let mut s = self;
        s.nulls = NullOrdering::Last;
        s
    }

    /// The same entry with the database's default null placement.
    pub fn nulls_default(self) -> (r: Self)
        ensures
            r@ == self@.with_nulls(NullOrdering::Default),
    {
        let mut s = self;
        s.nulls = NullOrdering::Default;
        s
    }

    /// True when ascending.
    pub fn is_asc(&self) -> (r: bool)
        ensures
            r == (self@.direction == SortDirection::Asc),
    {
        self.direction.is_asc()
    }

    /// True when descending.
    pub fn is_desc(&self) -> (r: bool)
        ensures
            r == (self@.direction == SortDirection::Desc),
    {
        self.direction.is_desc()
    }

    /// The null placement as an optional "nulls first" flag.
    pub fn nulls_as_bool(&self) -> (r: Option<bool>)
        ensures
            r == self@.nulls.as_bool_spec(),
    {
        self.nulls.as_bool_option()
    }
}

/// The fields, in order, of the entries that were added with runtime field names.
pub open spec fn unsafe_fields_of(sorts: Seq<SortView>) -> Seq<Seq<char>>
    decreases sorts.len(),
{
    if sorts.len() == 0 {
        Seq::empty()
    } else {
        let rest = unsafe_fields_of(sorts.drop_last());
        if sorts.last().runtime {
            rest.push(sorts.last().field)
        } else {
            rest
        }
    }
}

/// The character sequences of a list of column names.
pub open spec fn columns_view(cols: Seq<&str>) -> Seq<Seq<char>> {
    cols.map_values(|c: &str| c@)
}

/// An ordered list of ORDER BY entries, with the runtime field names that
/// must be checked against an optional whitelist of columns.
#[derive(Debug)]
pub struct SortingParams {
    sorts: Vec<Sort>,
    unsafe_fields: Vec<String>,
    allowed_columns: Option<&'static [&'static str]>,
}

impl SortingParams {
    /// The entries, in order.
    pub closed spec fn entries(&self) -> Seq<SortView> {
        self.sorts@.map_values(|s: Sort| s@)
    }

    /// The whitelist of columns, if one was set.
    pub closed spec fn allowed(&self) -> Option<Seq<Seq<char>>> {
        match self.allowed_columns {
            Some(cols) => Some(columns_view(cols@)),
            None => None,
        }
    }

    /// The recorded runtime field names always match the entries that were added at runtime.
    #[verifier::type_invariant]
    closed spec fn wf(&self) -> bool {
        self.unsafe_fields@.map_values(|s: String| s@) == unsafe_fields_of(self.entries())
    }

    /// Whether every runtime field name is in the whitelist (vacuously so when there are none).
    pub open spec fn fields_valid(&self) -> bool {
        unsafe_fields_of(self.entries()).len() == 0 || (self.allowed() is Some && forall|i: int|
            0 <= i < unsafe_fields_of(self.entries()).len() ==> self.allowed()->0.contains(
                #[trigger] unsafe_fields_of(self.entries())[i],
            ))
    }

    /// No entries and no whitelist.
    pub fn new() -> (r: Self)
        ensures
            r.entries() == Seq::<SortView>::empty(),
            r.allowed() is None,
    {
        let sorts: Vec<Sort> = Vec::new();
        let unsafe_fields: Vec<String> = Vec::new();
        assert(sorts@.map_values(|s: Sort| s@) =~= Seq::<SortView>::empty());
        assert(unsafe_fields@.map_values(|s: String| s@) =~= Seq::<Seq<char>>::empty());
        SortingParams { sorts, unsafe_fields, allowed_columns: None }
    }

    /// Read access to the entries.
    pub fn sorts(&self) -> (r: &[Sort])
        ensures
            r@.map_values(|s: Sort| s@) == self.entries(),
    {
        self.sorts.as_slice()
    }

    /// Whether any entry was added with a runtime field name.
    pub fn has_unsafe_fields(&self) -> (r: bool)
        ensures
            r == (unsafe_fields_of(self.entries()).len() > 0),
    {
        proof {
            use_type_invariant(self);
        }
        let r = self.unsafe_fields.len() > 0;
        assert(self.unsafe_fields@.map_values(|s: String| s@).len() == self.unsafe_fields@.len());
        r
    }

    /// The same entries with the whitelist set to `columns`.
    pub fn with_allowed_columns(self, columns: &'static [&'static str]) -> (r: Self)
        ensures
            r.entries() == self.entries(),
            r.allowed() == Some(columns_view(columns@)),
    {
        proof {
            use_type_invariant(&self);
        }
        SortingParams {
            sorts: self.sorts,
            unsafe_fields: self.unsafe_fields,
            allowed_columns: Some(columns),
        }
    }

    /// Checks every runtime field name against the whitelist. With no runtime
    /// field names this succeeds; with some but no whitelist it fails; otherwise
    /// it fails naming the first field (exact, case-sensitive match) that is
    /// not whitelisted.
    pub fn validate_fields(&self) -> (r: Result<(), String>)
        ensures
            r is Ok <==> self.fields_valid(),
            r matches Err(msg) ==> (self.allowed() is None && msg@ == missing_whitelist_message())
                || (self.allowed() is Some && exists|i: int|
                0 <= i < unsafe_fields_of(self.entries()).len() && !self.allowed()->0.contains(
                    unsafe_fields_of(self.entries())[i],
                ) && (forall|j: int| 0 <= j < i ==> self.allowed()->0.contains(
                    #[trigger] unsafe_fields_of(self.entries())[j],
                )) && msg@ == field_not_allowed_message(unsafe_fields_of(self.entries())[i])),
    {
        proof {
            use_type_invariant(self);
        }
        if !self.has_unsafe_fields() {
            return Ok(());
        }
        let allowed = match self.allowed_columns {
            Some(cols) => cols,
            None => {
                return Err(string_of("Unsafe fields present but no allowed_columns specified"));
            },
        };
        let ghost fields = unsafe_fields_of(self.entries());
        let ghost allowed_view = columns_view(allowed@);
        let mut i: usize = 0;
        while i < self.unsafe_fields.len()
            invariant
                self.unsafe_fields@.map_values(|s: String| s@) == fields,
                allowed_view == columns_view(allowed@),
                self.allowed_columns == Some(allowed),
                fields == unsafe_fields_of(self.entries()),
                i <= self.unsafe_fields@.len(),
                forall|j: int| 0 <= j < i ==> allowed_view.contains(#[trigger] fields[j]),
            decreases self.unsafe_fields@.len() - i,
        {
            let field = &self.unsafe_fields[i];
            assert(fields[i as int] == field@);
            if !column_allowed(allowed, field.as_str()) {
                let mut msg = string_of("Field '");
                msg.append(field.as_str());
                msg.append("' is not in allowed columns list");
                proof {
                    assert(!self.allowed()->0.contains(fields[i as int]));
                    assert(!self.fields_valid());
                    assert(msg@ == field_not_allowed_message(fields[i as int]));
                }
                return Err(msg);
            }
            i = i + 1;
        }
        Ok(())
    }

    /// Appends an entry, recording its field if it was added at runtime.
    pub fn push(self, sort: Sort) -> (r: Self)
        ensures
            appended(self.entries(), r.entries(), SortCall::Push(sort@)),
            r.entries() == self.entries().push(sort@),
            r.allowed() == self.allowed(),
    {
        proof {
            use_type_invariant(&self);
        }
        let mut sorts = self.sorts;
        let mut unsafe_fields = self.unsafe_fields;
        let ghost old_sorts = sorts@;
        let ghost old_fields = unsafe_fields@;
        if sort.is_unsafe() {
            unsafe_fields.push(sort.field.clone());
        }
        sorts.push(sort);
        proof {
            assert(sorts@.map_values(|s: Sort| s@).drop_last() =~= old_sorts.map_values(|s: Sort| s@));
            assert(unsafe_fields@.map_values(|s: String| s@) =~= unsafe_fields_of(sorts@.map_values(|s: Sort| s@)));
        }
        SortingParams { sorts, unsafe_fields, allowed_columns: self.allowed_columns }
    }

    /// Appends a safe entry on `field` in `direction`.
    pub fn sort_by(self, field: &str, direction: SortDirection) -> (r: Self)
        ensures
            appended(self.entries(), r.entries(), SortCall::SortBy(field@, direction)),
            r.entries().len() == self.entries().len() + 1,
            r.entries().drop_last() == self.entries(),
            r.entries().last().field == field@,
            r.entries().last().direction == direction,
            r.entries().last().nulls == NullOrdering::Default,
            !r.entries().last().runtime,
            r.allowed() == self.allowed(),
    {
        let s = Sort::new(field, direction);
        let r = self.push(s);
        assert(r.entries().drop_last() =~= self.entries());
        r
    }

    /// Appends a safe ascending entry.
    pub fn asc(self, field: &str) -> (r: Self)
        ensures
            appended(self.entries(), r.entries(), SortCall::Asc(field@)),
            r.entries().len() == self.entries().len() + 1,
            r.entries().drop_last() == self.entries(),
            r.entries().last().field == field@,
            r.entries().last().direction == SortDirection::Asc,
            r.entries().last().nulls == NullOrdering::Default,
            !r.entries().last().runtime,
            r.allowed() == self.allowed(),
    {
        self.sort_by(field, SortDirection::Asc)
    }

    /// Appends a safe descending entry.
    pub fn desc(self, field: &str) -> (r: Self)
        ensures
            appended(self.entries(), r.entries(), SortCall::Desc(field@)),
            r.entries().len() == self.entries().len() + 1,
            r.entries().drop_last() == self.entries(),
            r.entries().last().field == field@,
            r.entries().last().direction == SortDirection::Desc,
            r.entries().last().nulls == NullOrdering::Default,
            !r.entries().last().runtime,
            r.allowed() == self.allowed(),
    {
        self.sort_by(field, SortDirection::Desc)
    }

    /// Whether there are no entries.
    pub fn is_empty(&self) -> (r: bool)
        ensures
            r == (self.entries().len() == 0),
    {
        self.sorts.len() == 0
    }

    /// The same parameters with the null placement of the last entry replaced (no change when empty).
    fn set_last_nulls(self, n: NullOrdering) -> (r: Self)
        ensures
            r.entries() == with_last_nulls(self.entries(), n),
            r.allowed() == self.allowed(),
    {
        proof {
            use_type_invariant(&self);
        }
        let mut sorts = self.sorts;
        let len = sorts.len();
        if len > 0 {
            let mut last = sorts.pop().unwrap();
            last.nulls = n;
            sorts.push(last);
        }
        proof {
            let ghost a = self.sorts@.map_values(|s: Sort| s@);
            let ghost b = sorts@.map_values(|s: Sort| s@);
            if len > 0 {
                assert(b =~= with_last_nulls(a, n));
            } else {
                assert(b =~= a);
            }
            lemma_unsafe_fields_ignore_nulls(a, b);
        }
        SortingParams {
            sorts,
            unsafe_fields: self.unsafe_fields,
            allowed_columns: self.allowed_columns,
        }
    }

    /// Puts NULLs first in the last added entry.
    pub fn apply_nulls_first(self) -> (r: Self)
        ensures
            r.entries() == with_last_nulls(self.entries(), NullOrdering::First),
            r.allowed() == self.allowed(),
    {
        self.set_last_nulls(NullOrdering::First)
    }

    /// Puts NULLs last in the last added entry.
    pub fn apply_nulls_last(self) -> (r: Self)
        ensures
            r.entries() == with_last_nulls(self.entries(), NullOrdering::Last),
            r.allowed() == self.allowed(),
    {
        self.set_last_nulls(NullOrdering::Last)
    }

    /// Restores the default null placement of the last added entry.
    pub fn apply_nulls_default(self) -> (r: Self)
        ensures
            r.entries() == with_last_nulls(self.entries(), NullOrdering::Default),
            r.allowed() == self.allowed(),
    {
        self.set_last_nulls(NullOrdering::Default)
    }

    /// Appends the entries of `other`; keeps this whitelist if set, else takes `other`'s.
    pub fn extend_with(self, other: SortingParams) -> (r: Self)
        ensures
            r.entries() == self.entries() + other.entries(),
            r.allowed() == (if self.allowed() is Some {
                self.allowed()
            } else {
                other.allowed()
            }),
    {
        proof {
            use_type_invariant(&self);
            use_type_invariant(&other);
        }
        let mut sorts = self.sorts;
        let mut unsafe_fields = self.unsafe_fields;
        let mut other_sorts = other.sorts;
        let mut other_fields = other.unsafe_fields;
        let ghost a = sorts@;
        let ghost b = other_sorts@;
        let ghost fa = unsafe_fields@;
        let ghost fb = other_fields@;
        sorts.append(&mut other_sorts);
        unsafe_fields.append(&mut other_fields);
        proof {
            assert(sorts@.map_values(|s: Sort| s@) =~= a.map_values(|s: Sort| s@) + b.map_values(|s: Sort| s@));
            lemma_unsafe_fields_concat(a.map_values(|s: Sort| s@), b.map_values(|s: Sort| s@));
            assert(unsafe_fields@.map_values(|s: String| s@) =~= fa.map_values(|s: String| s@)
                + fb.map_values(|s: String| s@));
        }
        let allowed_columns = match self.allowed_columns {
            Some(c) => Some(c),
            None => other.allowed_columns,
        };
        SortingParams { sorts, unsafe_fields, allowed_columns }
    }
}

impl Clone for SortingParams {
    /// A copy with the same entries and whitelist.
    fn clone(&self) -> (r: Self)
        ensures
            r.entries() == self.entries(),
            r.allowed() == self.allowed(),
    {
        proof {
            use_type_invariant(self);
        }
        let mut sorts: Vec<Sort> = Vec::new();
        let mut i: usize = 0;
        while i < self.sorts.len()
            invariant
                i <= self.sorts@.len(),
                sorts@.map_values(|s: Sort| s@) == self.sorts@.subrange(0, i as int).map_values(|s: Sort| s@),
            decreases self.sorts@.len() - i,
        {
            let ghost before = sorts@;
            let c = self.sorts[i].clone();
            sorts.push(c);
            proof {
                let f = |s: Sort| s@;
                assert(sorts@.map_values(f) =~= before.map_values(f).push(self.sorts@[i as int]@));
                assert(self.sorts@.subrange(0, i + 1).map_values(f) =~= self.sorts@.subrange(0, i as int).map_values(
                    f,
                ).push(self.sorts@[i as int]@));
            }
            i = i + 1;
        }
        let mut fields: Vec<String> = Vec::new();
        let mut k: usize = 0;
        while k < self.unsafe_fields.len()
            invariant
                k <= self.unsafe_fields@.len(),
                fields@.map_values(|s: String| s@) == self.unsafe_fields@.subrange(0, k as int).map_values(
                    |s: String| s@,
                ),
            decreases self.unsafe_fields@.len() - k,
        {
            let ghost before = fields@;
            let c = self.unsafe_fields[k].clone();
            fields.push(c);
            proof {
                let f = |s: String| s@;
                assert(fields@.map_values(f) =~= before.map_values(f).push(self.unsafe_fields@[k as int]@));
                assert(self.unsafe_fields@.subrange(0, k + 1).map_values(f) =~= self.unsafe_fields@.subrange(
                    0,
                    k as int,
                ).map_values(f).push(self.unsafe_fields@[k as int]@));
            }
            k = k + 1;
        }
        assert(self.sorts@.subrange(0, self.sorts@.len() as int) =~= self.sorts@);
        assert(self.unsafe_fields@.subrange(0, self.unsafe_fields@.len() as int) =~= self.unsafe_fields@);
        SortingParams { sorts, unsafe_fields: fields, allowed_columns: self.allowed_columns }
    }
}

/// `sorts` with the null placement of its last entry replaced (unchanged when empty).
pub open spec fn with_last_nulls(sorts: Seq<SortView>, n: NullOrdering) -> Seq<SortView> {
    if sorts.len() == 0 {
        sorts
    } else {
        sorts.update(sorts.len() - 1, sorts.last().with_nulls(n))
    }
}

proof fn lemma_unsafe_fields_ignore_nulls(a: Seq<SortView>, b: Seq<SortView>)
    requires
        a.len() == b.len(),
        forall|i: int| 0 <= i < a.len() ==> a[i].field == b[i].field && a[i].runtime == b[i].runtime,
    ensures
        unsafe_fields_of(a) == unsafe_fields_of(b),
    decreases a.len(),
{
    if a.len() > 0 {
        lemma_unsafe_fields_ignore_nulls(a.drop_last(), b.drop_last());
    }
}

proof fn lemma_unsafe_fields_concat(a: Seq<SortView>, b: Seq<SortView>)
    ensures
        unsafe_fields_of(a + b) == unsafe_fields_of(a) + unsafe_fields_of(b),
    decreases b.len(),
{
    if b.len() == 0 {
        assert(a + b =~= a);
        assert(unsafe_fields_of(a) + unsafe_fields_of(b) =~= unsafe_fields_of(a));
    } else {
        lemma_unsafe_fields_concat(a, b.drop_last());
        assert((a + b).drop_last() =~= a + b.drop_last());
        if b.last().runtime {
            assert(unsafe_fields_of(a) + unsafe_fields_of(b.drop_last()).push(b.last().field)
                =~= (unsafe_fields_of(a) + unsafe_fields_of(b.drop_last())).push(b.last().field));
        }
    }
}

/// Text of the error when runtime fields exist but no whitelist was set.
pub open spec fn missing_whitelist_message() -> Seq<char> {
    "Unsafe fields present but no allowed_columns specified"@
}

/// Text of the error naming a field that is not whitelisted.
pub open spec fn field_not_allowed_message(field: Seq<char>) -> Seq<char> {
    "Field '"@ + field + "' is not in allowed columns list"@
}

/// Exact, case-sensitive membership of `field` in `allowed`.
fn column_allowed(allowed: &[&str], field: &str) -> (r: bool)
    ensures
        r == columns_view(allowed@).contains(field@),
{
    let mut i: usize = 0;
    while i < allowed.len()
        invariant
            i <= allowed@.len(),
            forall|j: int| 0 <= j < i ==> allowed@[j]@ != field@,
        decreases allowed@.len() - i,
    {
        if str_eq(allowed[i], field) {
            assert(columns_view(allowed@)[i as int] == field@);
            return true;
        }
        i = i + 1;
    }
    proof {
        if columns_view(allowed@).contains(field@) {
            let k = choose|k: int| 0 <= k < columns_view(allowed@).len() && columns_view(allowed@)[k] == field@;
            assert(allowed@[k]@ == field@);
        }
    }
    false
}


/// A call that appends an entry to sorting parameters, with what it was
/// given: `sort_by`, `asc`, `desc` or `push`.
pub enum SortCall {
    SortBy(Seq<char>, SortDirection),
    Asc(Seq<char>),
    Desc(Seq<char>),
    Push(SortView),
}

/// Whether `e` is the entry that call `c` appends.
pub open spec fn call_entry(e: SortView, c: SortCall) -> bool {
    match c {
        SortCall::SortBy(f, d) => e.field == f && e.direction == d && e.nulls == NullOrdering::Default && !e.runtime,
        SortCall::Asc(f) => e.field == f && e.direction == SortDirection::Asc && e.nulls == NullOrdering::Default
            && !e.runtime,
        SortCall::Desc(f) => e.field == f && e.direction == SortDirection::Desc && e.nulls == NullOrdering::Default
            && !e.runtime,
        SortCall::Push(s) => e == s,
    }
}

/// Whether the entries `after` are `before` with the entry of call `c`
/// appended.
pub open spec fn appended(before: Seq<SortView>, after: Seq<SortView>, c: SortCall) -> bool {
    &&& after.len() == before.len() + 1
    &&& after.drop_last() == before
    &&& call_entry(after.last(), c)
}

/// After the first `k` calls, the entries are those of the calls, in order.
proof fn lemma_sort_calls_prefix(calls: Seq<SortCall>, states: Seq<Seq<SortView>>, k: int)
    requires
        states.len() == calls.len() + 1,
        states[0] == Seq::<SortView>::empty(),
        forall|i: int| 0 <= i < calls.len() ==> appended(#[trigger] states[i], states[i + 1], calls[i]),
        0 <= k <= calls.len(),
    ensures
        states[k].len() == k,
        forall|i: int| 0 <= i < k ==> call_entry(#[trigger] states[k][i], calls[i]),
    decreases k,
{
    if k > 0 {
        lemma_sort_calls_prefix(calls, states, k - 1);
        assert(appended(states[k - 1], states[k], calls[k - 1]));
        assert forall|i: int| 0 <= i < k implies call_entry(#[trigger] states[k][i], calls[i]) by {
            if i < k - 1 {
                assert(states[k][i] == states[k].drop_last()[i]);
            }
        }
    }
}

/// Starting from no entries (`SortingParams::new`), each call of
/// `sort_by`, `asc`, `desc` or `push` appends exactly one entry: after the
/// calls `calls` (with the entries `states[i]` before call `i`), there is
/// one entry per call, in call order, each the one its call describes.
/// Nothing is dropped, merged or deduplicated.
pub proof fn law_sort_calls_in_order(calls: Seq<SortCall>, states: Seq<Seq<SortView>>)
    requires
        states.len() == calls.len() + 1,
        states[0] == Seq::<SortView>::empty(),
        forall|i: int| 0 <= i < calls.len() ==> appended(#[trigger] states[i], states[i + 1], calls[i]),
    ensures
        states.last().len() == calls.len(),
        forall|i: int| 0 <= i < calls.len() ==> call_entry(#[trigger] states.last()[i], calls[i]),
{
    lemma_sort_calls_prefix(calls, states, calls.len() as int);
}

} // verus!
