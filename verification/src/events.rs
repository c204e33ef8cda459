//! A runtime registration schema for events: each field-level derivation
//! rule binds one field of an [`Event`] record to one or more named
//! predicates, each predicate value a pure function of the record. A list of
//! rules compiles into a [`PredicateSpace`] and, per event, into the row of
//! predicate values in the same index order.

use vstd::prelude::*;
use vstd::string::StringExecFns;

use crate::bits::encodes;
use crate::bits::to_bits;
use crate::policy::views_of;
use crate::space::ConfigurationError;
use crate::space::PredicateSpace;

verus! {

/// A demonstration event record: the raw facts a predicate row is derived
/// from.
pub struct Event<'a> {
    pub diner: &'a str,
    pub big_group: bool,
    pub serve: u16,
    pub heat: u32,
}

/// A declarative derivation rule binding one field of an [`Event`] to named
/// predicates.
#[derive(Debug)]
pub enum FieldAttr {
    /// One predicate named `pred`: the event's diner equals `eq`.
    Diner { eq: String, pred: String },
    /// One predicate named `pred`: the event's big-group flag is set.
    Kitchen { pred: String },
    /// One predicate named `pred_ns`: nothing is served (the serve count is
    /// zero).
    Serve { pred_ns: String },
    /// One predicate per threshold in `heat`, named `pred_prefix` followed
    /// by the threshold's decimal digits: the event's heat reaches the
    /// threshold.
    Largeness { pred_prefix: String, heat: Vec<u32> },
}

/// The decimal digit `d` as a character.
pub open spec fn digit_char(d: int) -> char {
    if d == 0 {
        '0'
    } else if d == 1 {
        '1'
    } else if d == 2 {
        '2'
    } else if d == 3 {
        '3'
    } else if d == 4 {
        '4'
    } else if d == 5 {
        '5'
    } else if d == 6 {
        '6'
    } else if d == 7 {
        '7'
    } else if d == 8 {
        '8'
    } else {
        '9'
    }
}

/// The decimal digits of `n`, most significant first, without leading
/// zeros.
pub open spec fn dec_digits(n: int) -> Seq<char>
    decreases n,
{
    if n < 10 {
        seq![digit_char(n)]
    } else {
        dec_digits(n / 10).push(digit_char(n % 10))
    }
}

/// Relies on `u32`'s `Display` implementation through `ToString`: the
/// decimal digits of the value, most significant first, no sign and no
/// leading zeros.
#[verifier::external_body]
fn u32_to_string(n: u32) -> (r: String)
    ensures
        r@ == dec_digits(n as int),
{
    n.to_string()
}

/// The predicate names one derivation rule contributes, in order.
pub open spec fn spec_attr_names(attr: FieldAttr) -> Seq<Seq<char>> {
    match attr {
        FieldAttr::Diner { eq, pred } => seq![pred@],
        FieldAttr::Kitchen { pred } => seq![pred@],
        FieldAttr::Serve { pred_ns } => seq![pred_ns@],
        FieldAttr::Largeness { pred_prefix, heat } => heat@.map(
            |i: int, h: u32| pred_prefix@ + dec_digits(h as int),
        ),
    }
}

/// The predicate values one derivation rule extracts from an event, aligned
/// with `spec_attr_names`.
pub open spec fn spec_attr_values<'a>(attr: FieldAttr, e: Event<'a>) -> Seq<bool> {
    match attr {
        FieldAttr::Diner { eq, pred } => seq![e.diner@ == eq@],
        FieldAttr::Kitchen { pred } => seq![e.big_group],
        FieldAttr::Serve { pred_ns } => seq![e.serve == 0],
        FieldAttr::Largeness { pred_prefix, heat } => heat@.map(|i: int, h: u32| e.heat >= h),
    }
}

/// The names of a whole schema, rule after rule.
pub open spec fn spec_attrs_names(attrs: Seq<FieldAttr>) -> Seq<Seq<char>>
    decreases attrs.len(),
{
    if attrs.len() == 0 {
        Seq::empty()
    } else {
        spec_attrs_names(attrs.drop_last()) + spec_attr_names(attrs.last())
    }
}

/// The predicate row of a whole schema for one event, rule after rule.
pub open spec fn spec_attrs_values<'a>(attrs: Seq<FieldAttr>, e: Event<'a>) -> Seq<bool>
    decreases attrs.len(),
{
    if attrs.len() == 0 {
        Seq::empty()
    } else {
        spec_attrs_values(attrs.drop_last(), e) + spec_attr_values(attrs.last(), e)
    }
}

/// A schema derives exactly one predicate value per predicate name.
pub proof fn lemma_attrs_values_len<'a>(attrs: Seq<FieldAttr>, e: Event<'a>)
    ensures
        spec_attrs_values(attrs, e).len() == spec_attrs_names(attrs).len(),
    decreases attrs.len(),
{
    if attrs.len() > 0 {
        lemma_attrs_values_len(attrs.drop_last(), e);
    }
}

/// The predicate names one derivation rule contributes.
pub fn attr_names(attr: &FieldAttr) -> (r: Vec<String>)
    ensures
        views_of(r@) == spec_attr_names(*attr),
{
    match attr {
        FieldAttr::Diner { eq, pred } => {
            let mut out: Vec<String> = Vec::new();
            out.push(pred.clone());
            proof {
                assert(views_of(out@) =~= spec_attr_names(*attr));
            }
            out
        },
        FieldAttr::Kitchen { pred } => {
            let mut out: Vec<String> = Vec::new();
            out.push(pred.clone());
            proof {
                assert(views_of(out@) =~= spec_attr_names(*attr));
            }
            out
        },
        FieldAttr::Serve { pred_ns } => {
            let mut out: Vec<String> = Vec::new();
            out.push(pred_ns.clone());
            proof {
                assert(views_of(out@) =~= spec_attr_names(*attr));
            }
            out
        },
        FieldAttr::Largeness { pred_prefix, heat } => {
            let mut out: Vec<String> = Vec::new();
            let n = heat.len();
            for i in 0..n
                invariant
                    n == heat@.len(),
                    out@.len() == i,
                    forall|j: int|
                        0 <= j < i ==> (#[trigger] out@[j])@ == pred_prefix@ + dec_digits(
                            heat@[j] as int,
                        ),
            {
                let ds = u32_to_string(heat[i]);
                out.push(pred_prefix.clone().concat(ds.as_str()));
            }
            proof {
                assert(views_of(out@) =~= spec_attr_names(*attr));
            }
            out
        },
    }
}

/// The predicate values one derivation rule extracts from an event.
pub fn attr_values<'a>(attr: &FieldAttr, e: &Event<'a>) -> (r: Vec<bool>)
    ensures
        r@ == spec_attr_values(*attr, *e),
{
    match attr {
        FieldAttr::Diner { eq, pred } => {
            let mut out: Vec<bool> = Vec::new();
            let d: String = e.diner.to_owned();
            out.push(d == *eq);
            proof {
                assert(out@ =~= spec_attr_values(*attr, *e));
            }
            out
        },
        FieldAttr::Kitchen { pred } => {
            let mut out: Vec<bool> = Vec::new();
            out.push(e.big_group);
            proof {
                assert(out@ =~= spec_attr_values(*attr, *e));
            }
            out
        },
        FieldAttr::Serve { pred_ns } => {
            let mut out: Vec<bool> = Vec::new();
            out.push(e.serve == 0);
            proof {
                assert(out@ =~= spec_attr_values(*attr, *e));
            }
            out
        },
        FieldAttr::Largeness { pred_prefix, heat } => {
            let mut out: Vec<bool> = Vec::new();
            let n = heat.len();
            for i in 0..n
                invariant
                    n == heat@.len(),
                    out@.len() == i,
                    forall|j: int| 0 <= j < i ==> out@[j] == (e.heat >= heat@[j]),
            {
                out.push(e.heat >= heat[i]);
            }
            proof {
                assert(out@ =~= spec_attr_values(*attr, *e));
            }
            out
        },
    }
}

/// Compiles a schema of derivation rules into a predicate space: one bit
/// index per contributed name, in order. Fails exactly when the schema
/// contributes more predicates than the state word has bits.
pub fn space_from_attrs(attrs: &Vec<FieldAttr>) -> (r: Result<PredicateSpace, ConfigurationError>)
    ensures
        match r {
            Ok(space) => {
                &&& space.wf()
                &&& space.spec_names() == spec_attrs_names(attrs@)
            },
            Err(e) => {
                &&& spec_attrs_names(attrs@).len() > crate::bits::MASK_WIDTH
                &&& e.count == spec_attrs_names(attrs@).len()
            },
        },
{
    let mut names: Vec<String> = Vec::new();
    let n = attrs.len();
    for i in 0..n
        invariant
            n == attrs@.len(),
            views_of(names@) == spec_attrs_names(attrs@.take(i as int)),
    {
        let ghost names0 = names@;
        let mut contributed = attr_names(&attrs[i]);
        let ghost contributed0 = contributed@;
        names.append(&mut contributed);
        proof {
            assert(attrs@.take(i + 1).drop_last() =~= attrs@.take(i as int));
            assert(attrs@.take(i + 1).last() == attrs@[i as int]);
            assert(views_of(names@) =~= views_of(names0) + views_of(contributed0));
        }
    }
    proof {
        assert(attrs@.take(n as int) =~= attrs@);
    }
    match PredicateSpace::new(names) {
        Ok(space) => {
            proof {
                assert(space.spec_names() =~= spec_attrs_names(attrs@));
            }
            Ok(space)
        },
        Err(e) => Err(e),
    }
}

/// Derives the full predicate row of one event under a schema, in the same
/// index order as the space the schema compiles to.
pub fn event_row<'a>(attrs: &Vec<FieldAttr>, e: &Event<'a>) -> (row: Vec<bool>)
    ensures
        row@ == spec_attrs_values(attrs@, *e),
{
    let mut row: Vec<bool> = Vec::new();
    let n = attrs.len();
    for i in 0..n
        invariant
            n == attrs@.len(),
            row@ == spec_attrs_values(attrs@.take(i as int), *e),
    {
        let ghost row0 = row@;
        let mut vals = attr_values(&attrs[i], e);
        let ghost vals0 = vals@;
        row.append(&mut vals);
        proof {
            assert(attrs@.take(i + 1).drop_last() =~= attrs@.take(i as int));
            assert(attrs@.take(i + 1).last() == attrs@[i as int]);
            assert(row@ =~= row0 + vals0);
        }
    }
    proof {
        assert(attrs@.take(n as int) =~= attrs@);
    }
    row
}

impl<'a> Event<'a> {
    /// The event's predicate row under the demonstration schema: the diner
    /// name check, the big-group flag, the empty-serve check, and the three
    /// heat thresholds, in bit order.
    pub open spec fn spec_row(self) -> Seq<bool> {
        seq![
            self.diner@ == "acme"@,
            self.big_group,
            self.serve == 0,
            self.heat >= 100,
            self.heat >= 200,
            self.heat >= 600,
        ]
    }

    /// Encodes the event's predicate row under the demonstration schema as
    /// a bitset, bit `i` holding predicate `i`.
    pub fn to_bits(&self) -> (s: u64)
        ensures
            encodes(s, self.spec_row()),
    {
        let mut row: Vec<bool> = Vec::new();
        let d: String = self.diner.to_owned();
        let acme: String = "acme".to_owned();
        row.push(d == acme);
        row.push(self.big_group);
        row.push(self.serve == 0);
        row.push(self.heat >= 100);
        row.push(self.heat >= 200);
        row.push(self.heat >= 600);
        proof {
            assert(row@ =~= self.spec_row());
        }
        to_bits(&row)
    }
}

} // verus!
