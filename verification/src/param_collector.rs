//! Types and nullability of positional parameters, as the analysis learns them.

use crate::error::{signed_decimal, signed_text, AnalyzeError, AnalyzeErrorView};
use crate::pg_catalog::UNKNOWN;
use crate::text::{concat2, concat4, decimal, decimal_text};
use vstd::prelude::*;

verus! {

/// What is known of the parameter `$num`.
#[derive(Debug, Clone, Copy, PartialEq, Eq, Structural)]
pub struct ParamEntry {
    pub num: i32,
    /// It occurs in the query.
    pub seen: bool,
    /// Its type, once a use has fixed it.
    pub type_oid: Option<u32>,
    /// Whether it may be null, once something says so.
    pub nullable: Option<bool>,
    /// `nullable` was written by the author of the query.
    pub explicit: bool,
}

/// A parameter of which nothing is known.
pub open spec fn blank(num: i32) -> ParamEntry {
    ParamEntry { num, seen: false, type_oid: None, nullable: None, explicit: false }
}

/// What the entries say of a parameter.
pub open spec fn entry_of(entries: Seq<ParamEntry>, num: i32) -> ParamEntry
    decreases entries.len(),
{
    if entries.len() == 0 {
        blank(num)
    } else if entries[0].num == num {
        entries[0]
    } else {
        entry_of(entries.drop_first(), num)
    }
}

/// The entries with `e` in place of the one for the same parameter, or before
/// the first one for a greater number.
pub open spec fn entry_put(entries: Seq<ParamEntry>, e: ParamEntry) -> Seq<ParamEntry>
    decreases entries.len(),
{
    if entries.len() == 0 {
        seq![e]
    } else if entries[0].num == e.num {
        entries.update(0, e)
    } else if entries[0].num > e.num {
        seq![e] + entries
    } else {
        seq![entries[0]] + entry_put(entries.drop_first(), e)
    }
}

/// The entries are by ascending number, and no number occurs twice.
pub open spec fn ascending(entries: Seq<ParamEntry>) -> bool {
    forall|i: int, j: int| 0 <= i < j < entries.len() ==> entries[i].num < entries[j].num
}

/// A parameter occurs.
pub open spec fn param_seen(s: Seq<ParamEntry>, num: i32) -> Seq<ParamEntry> {
    entry_put(s, ParamEntry { seen: true, ..entry_of(s, num) })
}

/// A parameter occurs as a value of a type; the first type that is known stays.
pub open spec fn param_recorded(s: Seq<ParamEntry>, num: i32, type_oid: u32) -> Seq<ParamEntry> {
    let e = entry_of(s, num);
    entry_put(
        s,
        ParamEntry {
            seen: true,
            type_oid: if e.type_oid is None && type_oid != UNKNOWN {
                Some(type_oid)
            } else {
                e.type_oid
            },
            ..e
        },
    )
}

/// The author of the query says whether a parameter may be null.
pub open spec fn param_annotated(s: Seq<ParamEntry>, num: i32, nullable: bool) -> Seq<ParamEntry> {
    entry_put(s, ParamEntry { nullable: Some(nullable), explicit: true, ..entry_of(s, num) })
}

/// A column says whether a parameter may be null, unless its author has.
pub open spec fn param_inferred(s: Seq<ParamEntry>, num: i32, nullable: bool) -> Seq<ParamEntry> {
    let e = entry_of(s, num);
    if e.explicit {
        s
    } else {
        entry_put(s, ParamEntry { nullable: Some(nullable), ..e })
    }
}

/// The type of a parameter, `UNKNOWN` until a use has fixed it.
pub open spec fn param_type(s: Seq<ParamEntry>, num: i32) -> u32 {
    match entry_of(s, num).type_oid {
        Some(t) => t,
        None => UNKNOWN,
    }
}

/// Whether a parameter may be null: not unless something says so.
pub open spec fn param_nullable(s: Seq<ParamEntry>, num: i32) -> bool {
    entry_of(s, num).nullable == Some(true)
}

/// What the entries of a collector always satisfy: they are by ascending number, and
/// none has `UNKNOWN` for a type.
pub open spec fn well_kept(entries: Seq<ParamEntry>) -> bool {
    ascending(entries) && forall|i: int|
        0 <= i < entries.len() ==> (#[trigger] entries[i]).type_oid != Some(UNKNOWN)
}

/// The first parameter that occurs and whose type no use has fixed.
pub open spec fn first_untyped(s: Seq<ParamEntry>) -> Option<i32>
    decreases s.len(),
{
    if s.len() == 0 {
        None
    } else if s[0].seen && s[0].type_oid is None {
        Some(s[0].num)
    } else {
        first_untyped(s.drop_first())
    }
}

/// The parameters that occur, each with its type and whether it may be null.
pub open spec fn param_list(s: Seq<ParamEntry>) -> Seq<(i32, u32, bool)>
    decreases s.len(),
{
    if s.len() == 0 {
        Seq::empty()
    } else if s.last().seen {
        param_list(s.drop_last()).push(
            (
                s.last().num,
                match s.last().type_oid {
                    Some(t) => t,
                    None => UNKNOWN,
                },
                s.last().nullable == Some(true),
            ),
        )
    } else {
        param_list(s.drop_last())
    }
}

/// The first position at which the numbers are not `1`, `2`, ... in turn.
pub open spec fn first_gap(l: Seq<(i32, u32, bool)>, i: int) -> Option<int>
    decreases l.len() - i,
{
    if i < 0 || i >= l.len() {
        None
    } else if l[i].0 != i + 1 {
        Some(i)
    } else {
        first_gap(l, i + 1)
    }
}

/// The message for a missing number.
pub open spec fn gap_message(expected: int, next: i32) -> Seq<char> {
    "parameter gap: expected $"@ + decimal_text(expected as nat) + " but next is $"@ + signed_text(
        next as int,
    )
}

/// What [`ParamCollector::into_sorted`] returns.
pub open spec fn sorted_params(s: Seq<ParamEntry>) -> Result<
    Seq<(i32, u32, bool)>,
    AnalyzeErrorView,
> {
    let l = param_list(s);
    match first_untyped(s) {
        Some(num) => Err(
            AnalyzeErrorView::Unsupported(
                "could not infer type for parameter $"@ + signed_text(num as int),
            ),
        ),
        None => match first_gap(l, 0) {
            Some(i) => Err(AnalyzeErrorView::Unsupported(gap_message(i + 1, l[i].0))),
            None => Ok(l),
        },
    }
}

/// Collects type constraints for positional parameters (`$1`, `$2`, ...).
#[derive(Debug)]
pub struct ParamCollector {
    entries: Vec<ParamEntry>,
}

impl View for ParamCollector {
    type V = Seq<ParamEntry>;

    closed spec fn view(&self) -> Seq<ParamEntry> {
        self.entries@
    }
}

impl Default for ParamCollector {
    fn default() -> (r: ParamCollector)
        ensures
            r@ == Seq::<ParamEntry>::empty(),
    {
        ParamCollector { entries: Vec::new() }
    }
}

impl Clone for ParamCollector {
    fn clone(&self) -> (r: ParamCollector)
        ensures
            r@ == self@,
    {
        proof {
            use_type_invariant(self);
        }
        let mut entries: Vec<ParamEntry> = Vec::new();
        let mut i: usize = 0;
        while i < self.entries.len()
            invariant
                i <= self.entries@.len(),
                entries@ == self.entries@.take(i as int),
            decreases self.entries.len() - i,
        {
            entries.push(self.entries[i]);
            proof {
                assert(entries@ =~= self.entries@.take(i + 1));
            }
            i = i + 1;
        }
        proof {
            assert(entries@ =~= self.entries@);
        }
        ParamCollector { entries }
    }
}

impl ParamCollector {
    #[verifier::type_invariant]
    spec fn entries_kept(self) -> bool {
        well_kept(self.entries@)
    }

    fn entry(&self, num: i32) -> (r: ParamEntry)
        ensures
            r == entry_of(self@, num),
            well_kept(self@),
            r.num == num,
            r.type_oid != Some(UNKNOWN),
    {
        proof {
            use_type_invariant(self);
            lemma_entry_number(self@, num);
            lemma_entry_typed(self@, num);
        }
        let mut i: usize = 0;
        proof {
            assert(self@.skip(0) =~= self@);
        }
        while i < self.entries.len()
            invariant
                i <= self.entries@.len(),
                self@ == self.entries@,
                well_kept(self@),
                entry_of(self@, num).type_oid != Some(UNKNOWN),
                entry_of(self@, num) == entry_of(self@.skip(i as int), num),
            decreases self.entries.len() - i,
        {
            proof {
                assert(self@.skip(i as int).drop_first() =~= self@.skip(i + 1));
            }
            if self.entries[i].num == num {
                return self.entries[i];
            }
            i = i + 1;
        }
        ParamEntry { num, seen: false, type_oid: None, nullable: None, explicit: false }
    }

    fn put(&mut self, e: ParamEntry)
        requires
            e.type_oid != Some(UNKNOWN),
        ensures
            final(self)@ == entry_put(old(self)@, e),
            well_kept(final(self)@),
    {
        proof {
            use_type_invariant(&*self);
        }
        let mut v: Vec<ParamEntry> = Vec::new();
        std::mem::swap(&mut v, &mut self.entries);
        let mut i: usize = 0;
        let ghost s = v@;
        proof {
            assert(s.skip(0) =~= s);
            assert(s.take(0) + entry_put(s.skip(0), e) =~= entry_put(s, e));
        }
        while i < v.len() && v[i].num < e.num
            invariant
                s == v@,
                i <= v@.len(),
                entry_put(s, e) == s.take(i as int) + entry_put(s.skip(i as int), e),
            decreases v.len() - i,
        {
            proof {
                assert(s.skip(i as int).drop_first() =~= s.skip(i + 1));
                assert(s.take(i as int) + (seq![s[i as int]] + entry_put(s.skip(i + 1), e))
                    =~= s.take(i + 1) + entry_put(s.skip(i + 1), e));
            }
            i = i + 1;
        }
        if i < v.len() && v[i].num == e.num {
            v.set(i, e);
            proof {
                assert(s.take(i as int) + s.skip(i as int).update(0, e) =~= s.update(i as int, e));
            }
        } else {
            v.insert(i, e);
            proof {
                if i < s.len() {
                    assert(s.take(i as int) + (seq![e] + s.skip(i as int)) =~= s.insert(
                        i as int,
                        e,
                    ));
                } else {
                    assert(s.take(i as int) + seq![e] =~= s.insert(i as int, e));
                }
            }
        }
        proof {
            lemma_put_kept(s, e);
        }
        self.entries = v;
    }

    /// Notes that a parameter occurs. What else is known of it, and of the others,
    /// stays.
    pub fn see(&mut self, param_num: i32)
        ensures
            final(self)@ == param_seen(old(self)@, param_num),
            well_kept(final(self)@),
    {
        let e: ParamEntry = self.entry(param_num);
        self.put(
            ParamEntry {
                num: e.num,
                seen: true,
                type_oid: e.type_oid,
                nullable: e.nullable,
                explicit: e.explicit,
            },
        );
    }

    /// Notes that a parameter is used as a value of a type. The first type stays, and
    /// `UNKNOWN` neither sets nor clears one; nothing changes for other parameters, nor
    /// for what may be null.
    pub fn record(&mut self, param_num: i32, type_oid: u32)
        ensures
            final(self)@ == param_recorded(old(self)@, param_num, type_oid),
            well_kept(final(self)@),
            entry_of(final(self)@, param_num).seen,
            param_type(final(self)@, param_num) == (if param_type(old(self)@, param_num)
                == UNKNOWN {
                type_oid
            } else {
                param_type(old(self)@, param_num)
            }),
            forall|m: i32| #![trigger entry_of(final(self)@, m)]
                m != param_num ==> entry_of(final(self)@, m) == entry_of(old(self)@, m),
            forall|m: i32|
                #[trigger] param_nullable(final(self)@, m) == param_nullable(old(self)@, m),
    {
        let e: ParamEntry = self.entry(param_num);
        let ghost before = self@;
        proof {
            law_record_changes_one_parameter(before, param_num, type_oid);
        }
        let fixed: Option<u32> = if e.type_oid.is_none() && type_oid != UNKNOWN {
            Some(type_oid)
        } else {
            e.type_oid
        };
        self.put(
            ParamEntry {
                num: e.num,
                seen: true,
                type_oid: fixed,
                nullable: e.nullable,
                explicit: e.explicit,
            },
        );
    }

    /// Notes what the author of the query wrote (`$foo?` or `$foo!`); it goes
    /// before what is inferred.
    pub fn set_nullable(&mut self, param_num: i32, nullable: bool)
        ensures
            final(self)@ == param_annotated(old(self)@, param_num, nullable),
            well_kept(final(self)@),
    {
        let e: ParamEntry = self.entry(param_num);
        self.put(
            ParamEntry {
                num: e.num,
                seen: e.seen,
                type_oid: e.type_oid,
                nullable: Some(nullable),
                explicit: true,
            },
        );
    }

    /// Notes what the definition of a column says; what the author of the query
    /// wrote stays.
    pub fn infer_nullable(&mut self, param_num: i32, nullable: bool)
        ensures
            final(self)@ == param_inferred(old(self)@, param_num, nullable),
            well_kept(final(self)@),
    {
        let e: ParamEntry = self.entry(param_num);
        if !e.explicit {
            self.put(
                ParamEntry {
                    num: e.num,
                    seen: e.seen,
                    type_oid: e.type_oid,
                    nullable: Some(nullable),
                    explicit: e.explicit,
                },
            );
        }
    }

    /// Whether a parameter may be null.
    pub fn is_nullable(&self, param_num: i32) -> (r: bool)
        ensures
            r == param_nullable(self@, param_num),
    {
        match self.entry(param_num).nullable {
            Some(b) => b,
            None => false,
        }
    }

    /// The type of a parameter, `UNKNOWN` until a use has fixed it.
    pub fn get(&self, param_num: i32) -> (r: u32)
        ensures
            r == param_type(self@, param_num),
    {
        match self.entry(param_num).type_oid {
            Some(t) => t,
            None => UNKNOWN,
        }
    }

    fn find_untyped(&self) -> (r: Option<i32>)
        ensures
            r == first_untyped(self@),
    {
        let ghost s = self@;
        let mut i: usize = 0;
        proof {
            assert(s.skip(0) =~= s);
        }
        while i < self.entries.len()
            invariant
                s == self@,
                s == self.entries@,
                i <= s.len(),
                first_untyped(s) == first_untyped(s.skip(i as int)),
            decreases s.len() - i,
        {
            proof {
                assert(s.skip(i as int).drop_first() =~= s.skip(i + 1));
            }
            let e: ParamEntry = self.entries[i];
            if e.seen && e.type_oid.is_none() {
                return Some(e.num);
            }
            i = i + 1;
        }
        None
    }

    /// All parameters that occur, in order, as number, type and nullability.
    ///
    /// # Errors
    ///
    /// No use fixes the type of a parameter, or the numbers are not `1`, `2`, ...
    /// without a gap.
    pub fn into_sorted(self) -> (r: Result<Vec<(i32, u32, bool)>, AnalyzeError>)
        ensures
            match r {
                Ok(v) => sorted_params(self@) == Ok::<_, AnalyzeErrorView>(v@),
                Err(e) => sorted_params(self@) == Err::<Seq<(i32, u32, bool)>, _>(e@),
            },
    {
        if let Some(num) = self.find_untyped() {
            return Err(
                AnalyzeError::Unsupported(
                    concat2(
                        "could not infer type for parameter $",
                        signed_decimal(num as i64).as_str(),
                    ),
                ),
            );
        }
        let mut v: Vec<(i32, u32, bool)> = Vec::new();
        let mut i: usize = 0;
        while i < self.entries.len()
            invariant
                i <= self.entries@.len(),
                self@ == self.entries@,
                v@ == param_list(self@.take(i as int)),
            decreases self.entries.len() - i,
        {
            proof {
                assert(self@.take(i + 1).drop_last() =~= self@.take(i as int));
            }
            let e: ParamEntry = self.entries[i];
            if e.seen {
                let t: u32 = match e.type_oid {
                    Some(t) => t,
                    None => UNKNOWN,
                };
                let n: bool = match e.nullable {
                    Some(b) => b,
                    None => false,
                };
                v.push((e.num, t, n));
            }
            i = i + 1;
        }
        proof {
            assert(self@.take(i as int) =~= self@);
        }
        let mut k: usize = 0;
        while k < v.len()
            invariant
                k <= v@.len(),
                v@ == param_list(self@),
                first_untyped(self@) is None,
                first_gap(v@, 0) == first_gap(v@, k as int),
            decreases v.len() - k,
        {
            let num: i32 = v[k].0;
            if k >= 0x7fff_ffff || num as i64 != k as i64 + 1 {
                proof {
                    assert(num != k + 1);
                }
                let message: String = concat4(
                    "parameter gap: expected $",
                    decimal(k as u64 + 1).as_str(),
                    " but next is $",
                    signed_decimal(num as i64).as_str(),
                );
                return Err(AnalyzeError::Unsupported(message));
            }
            k = k + 1;
        }
        Ok(v)
    }
}

// ── Laws ────────────────────────────────────────────────────────────────────

/// Putting an entry keeps the numbers ascending, changes what is said of its own
/// parameter to just that entry, and leaves the others alone.
pub proof fn law_put_changes_one_entry(s: Seq<ParamEntry>, e: ParamEntry, num: i32)
    requires
        ascending(s),
    ensures
        ascending(entry_put(s, e)),
        entry_of(entry_put(s, e), e.num) == e,
        num != e.num ==> entry_of(entry_put(s, e), num) == entry_of(s, num),
        forall|i: int|
            0 <= i < entry_put(s, e).len() ==> (#[trigger] entry_put(s, e)[i]) == e || s.contains(
                entry_put(s, e)[i],
            ),
    decreases s.len(),
{
    let r = entry_put(s, e);
    if s.len() == 0 {
        assert(seq![e].drop_first() =~= s);
    } else if s[0].num == e.num {
        assert(r.drop_first() =~= s.drop_first());
        assert forall|i: int| 0 <= i < r.len() implies (#[trigger] r[i]) == e || s.contains(r[i]) by {
            if i > 0 {
                assert(r[i] == s[i]);
            }
        }
    } else if s[0].num > e.num {
        assert(r.drop_first() =~= s);
        assert forall|i: int| 0 <= i < r.len() implies (#[trigger] r[i]) == e || s.contains(r[i]) by {
            if i > 0 {
                assert(r[i] == s[i - 1]);
            }
        }
        lemma_absent_before_first(s, e.num);
    } else {
        let rest = s.drop_first();
        assert forall|i: int, j: int| 0 <= i < j < rest.len() implies rest[i].num < rest[j].num by {
            assert(rest[i] == s[i + 1] && rest[j] == s[j + 1]);
        }
        law_put_changes_one_entry(rest, e, num);
        let tail = entry_put(rest, e);
        assert(r.drop_first() =~= tail);
        assert forall|i: int| 0 <= i < tail.len() implies s[0].num < (#[trigger] tail[i]).num by {
            if tail[i] != e {
                let k = choose|k: int| 0 <= k < rest.len() && rest[k] == tail[i];
                assert(rest[k] == s[k + 1]);
            }
        }
        assert forall|i: int, j: int| 0 <= i < j < r.len() implies r[i].num < r[j].num by {
            assert(r[j] == tail[j - 1]);
            if i > 0 {
                assert(r[i] == tail[i - 1]);
            }
        }
        assert forall|i: int| 0 <= i < r.len() implies (#[trigger] r[i]) == e || s.contains(r[i]) by {
            if i > 0 {
                assert(r[i] == tail[i - 1]);
                if tail[i - 1] != e {
                    let k = choose|k: int| 0 <= k < rest.len() && rest[k] == tail[i - 1];
                    assert(s[k + 1] == r[i]);
                }
            } else {
                assert(r[0] == s[0]);
            }
        }
    }
}

proof fn lemma_absent_before_first(s: Seq<ParamEntry>, num: i32)
    requires
        ascending(s),
        s.len() > 0 ==> num < s[0].num,
    ensures
        entry_of(s, num) == blank(num),
    decreases s.len(),
{
    if s.len() > 0 {
        let rest = s.drop_first();
        assert forall|i: int, j: int| 0 <= i < j < rest.len() implies rest[i].num < rest[j].num by {
            assert(rest[i] == s[i + 1] && rest[j] == s[j + 1]);
        }
        if rest.len() > 0 {
            assert(rest[0] == s[1]);
            assert(s[0].num < s[1].num);
        }
        lemma_absent_before_first(rest, num);
    }
}

/// No entry of a collector has `UNKNOWN` for a type.
pub proof fn lemma_entry_typed(s: Seq<ParamEntry>, num: i32)
    requires
        well_kept(s),
    ensures
        entry_of(s, num).type_oid != Some(UNKNOWN),
    decreases s.len(),
{
    if s.len() > 0 && s[0].num != num {
        let rest = s.drop_first();
        assert forall|i: int, j: int| 0 <= i < j < rest.len() implies rest[i].num < rest[j].num by {
            assert(rest[i] == s[i + 1] && rest[j] == s[j + 1]);
        }
        assert forall|i: int| 0 <= i < rest.len() implies (#[trigger] rest[i]).type_oid != Some(
            UNKNOWN,
        ) by {
            assert(rest[i] == s[i + 1]);
        }
        lemma_entry_typed(rest, num);
    }
}

proof fn lemma_put_kept(s: Seq<ParamEntry>, e: ParamEntry)
    requires
        well_kept(s),
        e.type_oid != Some(UNKNOWN),
    ensures
        well_kept(entry_put(s, e)),
{
    law_put_changes_one_entry(s, e, e.num);
    let r = entry_put(s, e);
    assert forall|i: int| 0 <= i < r.len() implies (#[trigger] r[i]).type_oid != Some(
        UNKNOWN,
    ) by {
        if r[i] != e {
            let k = choose|k: int| 0 <= k < s.len() && s[k] == r[i];
            assert(s[k].type_oid != Some(UNKNOWN));
        }
    }
}

/// Whatever is noted of a parameter, the entries stay by ascending number and none
/// gets `UNKNOWN` for a type.
pub proof fn law_entries_stay_kept(s: Seq<ParamEntry>, num: i32, type_oid: u32, nullable: bool)
    requires
        well_kept(s),
    ensures
        well_kept(param_seen(s, num)),
        well_kept(param_recorded(s, num, type_oid)),
        well_kept(param_annotated(s, num, nullable)),
        well_kept(param_inferred(s, num, nullable)),
{
    let e = entry_of(s, num);
    lemma_entry_typed(s, num);
    lemma_put_kept(s, ParamEntry { seen: true, ..e });
    let fixed = if e.type_oid is None && type_oid != UNKNOWN {
        Some(type_oid)
    } else {
        e.type_oid
    };
    lemma_put_kept(s, ParamEntry { seen: true, type_oid: fixed, ..e });
    lemma_put_kept(s, ParamEntry { nullable: Some(nullable), explicit: true, ..e });
    lemma_put_kept(s, ParamEntry { nullable: Some(nullable), ..e });
}

/// Recording a type sets it where none is known and leaves a known one; `UNKNOWN`
/// neither sets nor clears one. The parameter then occurs, other parameters are as
/// before, and so is what may be null.
pub proof fn law_record_changes_one_parameter(s: Seq<ParamEntry>, num: i32, type_oid: u32)
    requires
        well_kept(s),
    ensures
        entry_of(param_recorded(s, num, type_oid), num).seen,
        param_type(param_recorded(s, num, type_oid), num) == (if param_type(s, num) == UNKNOWN {
            type_oid
        } else {
            param_type(s, num)
        }),
        forall|m: i32|
            m != num ==> #[trigger] entry_of(param_recorded(s, num, type_oid), m) == entry_of(s, m),
        forall|m: i32|
            #[trigger] param_nullable(param_recorded(s, num, type_oid), m) == param_nullable(s, m),
{
    let e = entry_of(s, num);
    lemma_entry_number(s, num);
    lemma_entry_typed(s, num);
    let fixed = if e.type_oid is None && type_oid != UNKNOWN {
        Some(type_oid)
    } else {
        e.type_oid
    };
    let next = ParamEntry { seen: true, type_oid: fixed, ..e };
    let r = param_recorded(s, num, type_oid);
    assert(r == entry_put(s, next));
    law_put_changes_one_entry(s, next, num);
    assert forall|m: i32| m != num implies #[trigger] entry_of(r, m) == entry_of(s, m) by {
        law_put_changes_one_entry(s, next, m);
    }
    assert forall|m: i32| #[trigger] param_nullable(r, m) == param_nullable(s, m) by {
        law_put_changes_one_entry(s, next, m);
    }
}

/// Where the parameters can be listed at all, each of them has the type that a
/// use has fixed.
pub proof fn law_listed_parameters_are_typed(s: Seq<ParamEntry>, i: int)
    requires
        sorted_params(s) is Ok,
        0 <= i < s.len(),
        s[i].seen,
    ensures
        s[i].type_oid is Some,
{
    lemma_typed(s, i);
}

proof fn lemma_typed(s: Seq<ParamEntry>, i: int)
    requires
        first_untyped(s) is None,
        0 <= i < s.len(),
        s[i].seen,
    ensures
        s[i].type_oid is Some,
    decreases s.len(),
{
    if i > 0 {
        assert(s.drop_first()[i - 1] == s[i]);
        lemma_typed(s.drop_first(), i - 1);
    }
}

/// The first type that a use fixes stays: recording another one changes nothing.
pub proof fn law_first_type_wins(s: Seq<ParamEntry>, num: i32, first: u32, second: u32)
    requires
        ascending(s),
        first != UNKNOWN,
    ensures
        param_type(param_recorded(param_recorded(s, num, first), num, second), num) == param_type(
            param_recorded(s, num, first),
            num,
        ),
        entry_of(s, num).type_oid is None ==> param_type(param_recorded(s, num, first), num)
            == first,
{
    let e = entry_of(s, num);
    lemma_entry_number(s, num);
    let t = if e.type_oid is None {
        Some(first)
    } else {
        e.type_oid
    };
    let e1 = ParamEntry { seen: true, type_oid: t, ..e };
    law_put_changes_one_entry(s, e1, num);
    let s1 = param_recorded(s, num, first);
    assert(s1 == entry_put(s, e1));
    law_put_changes_one_entry(s1, ParamEntry { seen: true, ..entry_of(s1, num) }, num);
}

/// What the author of the query wrote goes before what a column says, whichever
/// comes first.
pub proof fn law_annotation_wins(s: Seq<ParamEntry>, num: i32, written: bool, inferred: bool)
    requires
        ascending(s),
    ensures
        param_nullable(param_inferred(param_annotated(s, num, written), num, inferred), num)
            == written,
        param_nullable(param_annotated(param_inferred(s, num, inferred), num, written), num)
            == written,
{
    lemma_entry_number(s, num);
    let e = entry_of(s, num);
    law_put_changes_one_entry(
        s,
        ParamEntry { nullable: Some(written), explicit: true, ..e },
        num,
    );
    law_put_changes_one_entry(s, ParamEntry { nullable: Some(inferred), ..e }, num);
    let s1 = param_inferred(s, num, inferred);
    lemma_entry_number(s1, num);
    law_put_changes_one_entry(
        s1,
        ParamEntry { nullable: Some(written), explicit: true, ..entry_of(s1, num) },
        num,
    );
}

pub proof fn lemma_entry_number(s: Seq<ParamEntry>, num: i32)
    ensures
        entry_of(s, num).num == num,
    decreases s.len(),
{
    if s.len() > 0 && s[0].num != num {
        lemma_entry_number(s.drop_first(), num);
    }
}

} // verus!
