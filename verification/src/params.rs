//! Types and nullability of positional parameters, where each parameter has to
//! get its type from a use.

use crate::error::{AnalyzeError, AnalyzeErrorView};
use crate::param_collector;
use crate::param_collector::{
    param_annotated, param_nullable, param_recorded, param_seen, param_type, sorted_params,
    ParamEntry,
};
use vstd::prelude::*;

verus! {

/// Collects type constraints for positional parameters (`$1`, `$2`, ...).
#[derive(Debug)]
pub struct ParamCollector {
    known: param_collector::ParamCollector,
}

impl View for ParamCollector {
    type V = Seq<ParamEntry>;

    closed spec fn view(&self) -> Seq<ParamEntry> {
        self.known@
    }
}

impl Default for ParamCollector {
    fn default() -> (r: ParamCollector)
        ensures
            r@ == Seq::<ParamEntry>::empty(),
    {
        ParamCollector { known: Default::default() }
    }
}

impl ParamCollector {
    /// Notes that a parameter occurs.
    pub fn see(&mut self, param_num: i32)
        ensures
            final(self)@ == param_seen(old(self)@, param_num),
    {
        self.known.see(param_num);
    }

    /// Notes that a parameter is used as a value of a type.
    pub fn record(&mut self, param_num: i32, type_oid: u32)
        ensures
            final(self)@ == param_recorded(old(self)@, param_num, type_oid),
    {
        self.known.record(param_num, type_oid);
    }

    /// Notes whether a parameter may be null.
    pub fn set_nullable(&mut self, param_num: i32, nullable: bool)
        ensures
            final(self)@ == param_annotated(old(self)@, param_num, nullable),
    {
        self.known.set_nullable(param_num, nullable);
    }

    /// Whether a parameter may be null: not unless something says so.
    pub fn is_nullable(&self, param_num: i32) -> (r: bool)
        ensures
            r == param_nullable(self@, param_num),
    {
        self.known.is_nullable(param_num)
    }

    /// The type of a parameter, `UNKNOWN` until a use has fixed it.
    pub fn get(&self, param_num: i32) -> (r: u32)
        ensures
            r == param_type(self@, param_num),
    {
        self.known.get(param_num)
    }

    /// All parameters that occur, in order, as number, type and nullability.
    ///
    /// # Errors
    ///
    /// No use fixes the type of a parameter, or the numbers are not `1`, `2`, ...
    /// without a gap.
    pub fn into_sorted(self) -> (r: Result<Vec<(i32, u32, bool)>, AnalyzeError>)
        ensures
            match r {
                Ok(v) => sorted_params(self@) == Ok::<_, AnalyzeErrorView>(v@),
                Err(e) => sorted_params(self@) == Err::<Seq<(i32, u32, bool)>, _>(e@),
            },
    {
        self.known.into_sorted()
    }
}

} // verus!
