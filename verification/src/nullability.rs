//! Which columns may be null, beyond what their tables say.

use crate::scope::TableSource;
use crate::text::{copy_texts, has_text, same_text, texts};
use vstd::prelude::*;

verus! {

/// What a query does to the nullability of the columns that it reads.
#[derive(Debug, Clone)]
pub struct NullabilityContext {
    /// Aliases on the nullable side of an outer join.
    pub nullable_aliases: Vec<String>,
    /// The query has a `GROUP BY`: each group has a row, so that aggregates over
    /// columns that are not null are not null.
    pub has_group_by: bool,
    /// Alias and name of the columns that some grouping set leaves out; rows of
    /// such a set have null there.
    pub grouping_omitted: Vec<(String, String)>,
    /// Some grouping set is empty: its row aggregates the whole input, which may
    /// be empty, so that aggregates other than `count` may be null.
    pub has_empty_grouping_set: bool,
}

#[verifier::ext_equal]
pub struct NullabilityView {
    pub nullable_aliases: Set<Seq<char>>,
    pub has_group_by: bool,
    pub grouping_omitted: Set<(Seq<char>, Seq<char>)>,
    pub has_empty_grouping_set: bool,
}

/// Whether a list holds a pair of texts.
pub open spec fn has_pair(list: Seq<(String, String)>, a: Seq<char>, b: Seq<char>) -> bool {
    exists|i: int| 0 <= i < list.len() && (#[trigger] list[i]).0@ == a && list[i].1@ == b
}

impl View for NullabilityContext {
    type V = NullabilityView;

    open spec fn view(&self) -> NullabilityView {
        NullabilityView {
            nullable_aliases: Set::new(|a: Seq<char>| texts(self.nullable_aliases@).contains(a)),
            has_group_by: self.has_group_by,
            grouping_omitted: Set::new(
                |p: (Seq<char>, Seq<char>)| has_pair(self.grouping_omitted@, p.0, p.1),
            ),
            has_empty_grouping_set: self.has_empty_grouping_set,
        }
    }
}

impl NullabilityView {
    /// A query that does nothing to nullability.
    pub open spec fn plain() -> NullabilityView {
        NullabilityView {
            nullable_aliases: Set::empty(),
            has_group_by: false,
            grouping_omitted: Set::empty(),
            has_empty_grouping_set: false,
        }
    }

    /// Whether a column may be null: its alias is on the nullable side of a join,
    /// a grouping set leaves it out, or its table lets it be null.
    pub open spec fn column_nullable(
        self,
        alias: Seq<char>,
        column: Seq<char>,
        base_not_null: bool,
    ) -> bool {
        self.nullable_aliases.contains(alias) || self.grouping_omitted.contains((alias, column))
            || !base_not_null
    }
}

impl Default for NullabilityContext {
    fn default() -> (r: NullabilityContext)
        ensures
            r@ == NullabilityView::plain(),
    {
        let r: NullabilityContext = NullabilityContext {
            nullable_aliases: Vec::new(),
            has_group_by: false,
            grouping_omitted: Vec::new(),
            has_empty_grouping_set: false,
        };
        proof {
            assert(r@.nullable_aliases =~= Set::empty());
            assert(r@.grouping_omitted =~= Set::empty());
        }
        r
    }
}

impl NullabilityContext {
    /// Marks all aliases of a list as nullable.
    pub fn mark_all_nullable(&mut self, aliases: &Vec<String>)
        ensures
            final(self)@ == (NullabilityView {
                nullable_aliases: old(self)@.nullable_aliases.union(
                    Set::new(|a: Seq<char>| texts(aliases@).contains(a)),
                ),
                ..old(self)@
            }),
    {
        let mut more: Vec<String> = copy_texts(aliases);
        let ghost old_aliases = texts(self.nullable_aliases@);
        self.nullable_aliases.append(&mut more);
        proof {
            assert(texts(self.nullable_aliases@) =~= old_aliases + texts(aliases@));
            assert forall|a: Seq<char>| #[trigger]
                texts(self.nullable_aliases@).contains(a) == (old_aliases.contains(a) || texts(
                aliases@,
            ).contains(a)) by {
                let all = old_aliases + texts(aliases@);
                if old_aliases.contains(a) {
                    let i = choose|i: int| 0 <= i < old_aliases.len() && old_aliases[i] == a;
                    assert(all[i] == a);
                }
                if texts(aliases@).contains(a) {
                    let i = choose|i: int| 0 <= i < texts(aliases@).len() && texts(aliases@)[i] == a;
                    assert(all[old_aliases.len() + i] == a);
                }
            }
            assert(self@.nullable_aliases =~= old(self)@.nullable_aliases.union(
                Set::new(|a: Seq<char>| texts(aliases@).contains(a)),
            ));
        }
    }

    /// Whether a column may be null.
    pub fn is_nullable(
        &self,
        table_alias: &str,
        column_name: &str,
        base_not_null: bool,
    ) -> (r: bool)
        ensures
            r == self@.column_nullable(table_alias@, column_name@, base_not_null),
    {
        if has_text(&self.nullable_aliases, table_alias) {
            return true;
        }
        let mut i: usize = 0;
        while i < self.grouping_omitted.len()
            invariant
                i <= self.grouping_omitted@.len(),
                !self@.nullable_aliases.contains(table_alias@),
                forall|j: int|
                    0 <= j < i ==> !((#[trigger] self.grouping_omitted@[j]).0@ == table_alias@
                        && self.grouping_omitted@[j].1@ == column_name@),
            decreases self.grouping_omitted.len() - i,
        {
            if same_text(self.grouping_omitted[i].0.as_str(), table_alias) && same_text(
                self.grouping_omitted[i].1.as_str(),
                column_name,
            ) {
                proof {
                    assert(has_pair(self.grouping_omitted@, table_alias@, column_name@));
                }
                return true;
            }
            i = i + 1;
        }
        !base_not_null
    }
}

/// The aliases of a list of sources.
pub open spec fn source_aliases(sources: Seq<TableSource>) -> Seq<Seq<char>> {
    sources.map_values(|s: TableSource| s.alias@)
}

/// The aliases of a list of sources.
pub fn collect_aliases(sources: &Vec<TableSource>) -> (r: Vec<String>)
    ensures
        texts(r@) == source_aliases(sources@),
{
    let mut r: Vec<String> = Vec::new();
    let mut i: usize = 0;
    proof {
        assert(texts(r@) =~= source_aliases(sources@).take(0));
    }
    while i < sources.len()
        invariant
            i <= sources@.len(),
            texts(r@) == source_aliases(sources@).take(i as int),
        decreases sources.len() - i,
    {
        let ghost before = texts(r@);
        r.push(sources[i].alias.clone());
        proof {
            assert(texts(r@) =~= before.push(sources@[i as int].alias@));
            assert(source_aliases(sources@).take(i + 1) =~= source_aliases(sources@).take(
                i as int,
            ).push(sources@[i as int].alias@));
        }
        i = i + 1;
    }
    proof {
        assert(source_aliases(sources@).take(i as int) =~= source_aliases(sources@));
    }
    r
}

// ── Laws ────────────────────────────────────────────────────────────────────

/// A column that its table lets be null stays nullable, whatever the query does.
pub proof fn law_nullable_columns_stay_nullable(
    v: NullabilityView,
    alias: Seq<char>,
    column: Seq<char>,
)
    ensures
        v.column_nullable(alias, column, false),
{
}

/// Marking aliases makes no nullable column not null, and makes every column of
/// those aliases nullable.
pub proof fn law_marking_only_adds_nullability(
    v: NullabilityView,
    marked: Set<Seq<char>>,
    alias: Seq<char>,
    column: Seq<char>,
    base_not_null: bool,
)
    ensures
        ({
            let after = NullabilityView {
                nullable_aliases: v.nullable_aliases.union(marked),
                ..v
            };
            &&& v.column_nullable(alias, column, base_not_null) ==> after.column_nullable(
                alias,
                column,
                base_not_null,
            )
            &&& marked.contains(alias) ==> after.column_nullable(alias, column, base_not_null)
        }),
{
}

} // verus!
