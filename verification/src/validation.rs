//! Form validation: a candidate record is submittable only when its labels
//! and kinds are non-empty, its amounts non-zero and both dates present.
//! One shared predicate serves the create form and the renew form; all
//! violated fields are reported together, in checking order, not just the
//! first.

use vstd::prelude::*;

use crate::record::{Investment, InvestmentView};

verus! {

/// A client-settable field of an investment record.
#[derive(PartialEq, Eq, Structural, Clone, Copy, Debug)]
pub enum Field {
    InvName,
    Name,
    InvType,
    ReturnType,
    InvAmount,
    ReturnAmount,
    ReturnRate,
    StartDate,
    EndDate,
}

/// Whether a candidate violates the rule for one field: labels and kinds
/// must be non-empty, amounts non-zero, dates present.
pub open spec fn violates(r: InvestmentView, f: Field) -> bool {
    match f {
        Field::InvName => r.inv_name.len() == 0,
        Field::Name => r.name.len() == 0,
        Field::InvType => r.inv_type.len() == 0,
        Field::ReturnType => r.return_type.len() == 0,
        Field::InvAmount => r.inv_amount == 0,
        Field::ReturnAmount => r.return_amount == 0,
        Field::ReturnRate => r.return_rate == 0,
        Field::StartDate => r.start_date is None,
        Field::EndDate => r.end_date is None,
    }
}

/// A candidate is valid when no field is violated — field magnitudes play
/// no part beyond being non-zero.
pub open spec fn is_valid(r: InvestmentView) -> bool {
    forall|f: Field| !violates(r, f)
}

/// The order in which fields are checked and reported.
pub open spec fn field_order() -> Seq<Field> {
    seq![
        Field::InvName,
        Field::Name,
        Field::InvType,
        Field::ReturnType,
        Field::InvAmount,
        Field::ReturnAmount,
        Field::ReturnRate,
        Field::StartDate,
        Field::EndDate,
    ]
}

/// The violated fields among `fs`, in the order of `fs`.
pub open spec fn violations_of(r: InvestmentView, fs: Seq<Field>) -> Seq<Field>
    decreases fs.len(),
{
    if fs.len() == 0 {
        Seq::empty()
    } else {
        violations_of(r, fs.drop_last()) + (if violates(r, fs.last()) {
            seq![fs.last()]
        } else {
            Seq::empty()
        })
    }
}

/// Every violated field of a candidate, in checking order.
pub open spec fn violations(r: InvestmentView) -> Seq<Field> {
    violations_of(r, field_order())
}

/// `violations_of` reports a field exactly when it is among the checked
/// fields and violated.
pub proof fn lemma_violations_of_exact(r: InvestmentView, fs: Seq<Field>, f: Field)
    ensures
        violations_of(r, fs).contains(f) <==> fs.contains(f) && violates(r, f),
    decreases fs.len(),
{
    if fs.len() == 0 {
    } else {
        let front = fs.drop_last();
        let fv = violations_of(r, front);
        let tail: Seq<Field> = if violates(r, fs.last()) {
            seq![fs.last()]
        } else {
            Seq::empty()
        };
        let v = violations_of(r, fs);
        lemma_violations_of_exact(r, front, f);
        assert(v == fv + tail);
        assert(v.contains(f) <==> fv.contains(f) || tail.contains(f)) by {
            if fv.contains(f) {
                let i = choose|i: int| 0 <= i < fv.len() && fv[i] == f;
                assert(v[i] == f);
            }
            if tail.contains(f) {
                let i = choose|i: int| 0 <= i < tail.len() && tail[i] == f;
                assert(v[fv.len() + i] == f);
            }
            if v.contains(f) {
                let i = choose|i: int| 0 <= i < v.len() && v[i] == f;
                if i < fv.len() {
                    assert(fv[i] == f);
                } else {
                    assert(tail[i - fv.len()] == f);
                }
            }
        }
        assert(tail.contains(f) <==> f == fs.last() && violates(r, f)) by {
            if f == fs.last() && violates(r, f) {
                assert(tail[0] == f);
            }
            if tail.contains(f) {
                let i = choose|i: int| 0 <= i < tail.len() && tail[i] == f;
                assert(tail[i] == fs.last());
            }
        }
        assert(fs.contains(f) <==> front.contains(f) || f == fs.last()) by {
            if front.contains(f) {
                let i = choose|i: int| 0 <= i < front.len() && front[i] == f;
                assert(fs[i] == f);
            }
            if f == fs.last() {
                assert(fs[fs.len() - 1] == f);
            }
            if fs.contains(f) {
                let i = choose|i: int| 0 <= i < fs.len() && fs[i] == f;
                if i < fs.len() - 1 {
                    assert(front[i] == f);
                }
            }
        }
    }
}

/// Every field stands in the checking order.
pub proof fn lemma_field_order_complete(f: Field)
    ensures
        field_order().contains(f),
{
    let fs = field_order();
    match f {
        Field::InvName => assert(fs[0] == f),
        Field::Name => assert(fs[1] == f),
        Field::InvType => assert(fs[2] == f),
        Field::ReturnType => assert(fs[3] == f),
        Field::InvAmount => assert(fs[4] == f),
        Field::ReturnAmount => assert(fs[5] == f),
        Field::ReturnRate => assert(fs[6] == f),
        Field::StartDate => assert(fs[7] == f),
        Field::EndDate => assert(fs[8] == f),
    }
}

/// Validation is exact: a field is reported if and only if it is violated,
/// and a candidate passes (no report at all) if and only if it is valid —
/// a record missing any required field is rejected with every missing field
/// reported, and a record with all fields populated is accepted whatever
/// their magnitudes.
pub proof fn lemma_validation_exact(r: InvestmentView, f: Field)
    ensures
        violations(r).contains(f) <==> violates(r, f),
        violations(r).len() == 0 <==> is_valid(r),
{
    lemma_field_order_complete(f);
    lemma_violations_of_exact(r, field_order(), f);
    if violations(r).len() == 0 {
        assert forall|g: Field| !violates(r, g) by {
            lemma_field_order_complete(g);
            lemma_violations_of_exact(r, field_order(), g);
        }
    }
    if is_valid(r) && violations(r).len() > 0 {
        let g = violations(r)[0];
        assert(violations(r).contains(g));
        lemma_violations_of_exact(r, field_order(), g);
    }
}

/// Whether one field of a candidate is violated.
pub fn check_violates(r: &Investment, f: Field) -> (b: bool)
    ensures
        b == violates(r@, f),
{
    match f {
        Field::InvName => r.inv_name.as_str().is_empty(),
        Field::Name => r.name.as_str().is_empty(),
        Field::InvType => r.inv_type.as_str().is_empty(),
        Field::ReturnType => r.return_type.as_str().is_empty(),
        Field::InvAmount => r.inv_amount == 0,
        Field::ReturnAmount => r.return_amount == 0,
        Field::ReturnRate => r.return_rate == 0,
        Field::StartDate => r.start_date.is_none(),
        Field::EndDate => r.end_date.is_none(),
    }
}

/// The fields in checking order.
fn field_vec() -> (v: Vec<Field>)
    ensures
        v@ == field_order(),
{
    let v = vec![
        Field::InvName,
        Field::Name,
        Field::InvType,
        Field::ReturnType,
        Field::InvAmount,
        Field::ReturnAmount,
        Field::ReturnRate,
        Field::StartDate,
        Field::EndDate,
    ];
    proof {
        assert(v@ =~= field_order());
    }
    v
}

/// Checks a candidate, reporting every violated field in checking order.
pub fn validate(r: &Investment) -> (v: Vec<Field>)
    ensures
        v@ == violations(r@),
        v@.len() == 0 <==> is_valid(r@),
{
    let fields = field_vec();
    let ghost fs = field_order();
    let mut v: Vec<Field> = Vec::new();
    let mut i: usize = 0;
    proof {
        assert(v@ =~= violations_of(r@, fs.take(0)));
    }
    while i < fields.len()
        invariant
            fields@ == fs,
            fs == field_order(),
            0 <= i <= fs.len(),
            v@ == violations_of(r@, fs.take(i as int)),
        decreases fs.len() - i,
    {
        let f = fields[i];
        proof {
            assert(fs.take(i + 1).drop_last() =~= fs.take(i as int));
            assert(fs.take(i + 1).last() == fs[i as int]);
        }
        if check_violates(r, f) {
            v.push(f);
        }
        proof {
            assert(v@ =~= violations_of(r@, fs.take(i + 1)));
        }
        i = i + 1;
    }
    proof {
        assert(fs.take(fs.len() as int) =~= fs);
        lemma_validation_exact(r@, Field::InvName);
    }
    v
}

/// The message shown for a violated field.
pub open spec fn spec_field_message(f: Field) -> Seq<char> {
    match f {
        Field::InvName => "Investment Name can not be blank"@,
        Field::Name => "Name can not be blank"@,
        Field::InvType => "Investment Type can not be blank"@,
        Field::ReturnType => "Return Type can not be blank"@,
        Field::InvAmount => "Investment Amount can not be blank"@,
        Field::ReturnAmount => "Return Amount can not be blank"@,
        Field::ReturnRate => "Return Rate can not be blank"@,
        Field::StartDate => "Start Date can not be blank"@,
        Field::EndDate => "End Date can not be blank"@,
    }
}

/// The message shown for a violated field.
pub fn field_message(f: Field) -> (m: &'static str)
    ensures
        m@ == spec_field_message(f),
{
    match f {
        Field::InvName => "Investment Name can not be blank",
        Field::Name => "Name can not be blank",
        Field::InvType => "Investment Type can not be blank",
        Field::ReturnType => "Return Type can not be blank",
        Field::InvAmount => "Investment Amount can not be blank",
        Field::ReturnAmount => "Return Amount can not be blank",
        Field::ReturnRate => "Return Rate can not be blank",
        Field::StartDate => "Start Date can not be blank",
        Field::EndDate => "End Date can not be blank",
    }
}

/// `s` without every occurrence of `f`, order otherwise kept.
pub open spec fn remove_field(s: Seq<Field>, f: Field) -> Seq<Field>
    decreases s.len(),
{
    if s.len() == 0 {
        Seq::empty()
    } else {
        remove_field(s.drop_last(), f) + (if s.last() == f {
            Seq::empty()
        } else {
            seq![s.last()]
        })
    }
}

/// Removing a field removes exactly that field.
pub proof fn lemma_remove_field_exact(s: Seq<Field>, f: Field, g: Field)
    ensures
        remove_field(s, f).contains(g) <==> s.contains(g) && g != f,
    decreases s.len(),
{
    if s.len() == 0 {
    } else {
        let front = s.drop_last();
        let fv = remove_field(front, f);
        let tail: Seq<Field> = if s.last() == f {
            Seq::empty()
        } else {
            seq![s.last()]
        };
        let v = remove_field(s, f);
        lemma_remove_field_exact(front, f, g);
        assert(v == fv + tail);
        assert(v.contains(g) <==> fv.contains(g) || tail.contains(g)) by {
            if fv.contains(g) {
                let i = choose|i: int| 0 <= i < fv.len() && fv[i] == g;
                assert(v[i] == g);
            }
            if tail.contains(g) {
                let i = choose|i: int| 0 <= i < tail.len() && tail[i] == g;
                assert(v[fv.len() + i] == g);
            }
            if v.contains(g) {
                let i = choose|i: int| 0 <= i < v.len() && v[i] == g;
                if i < fv.len() {
                    assert(fv[i] == g);
                } else {
                    assert(tail[i - fv.len()] == g);
                }
            }
        }
        assert(tail.contains(g) <==> g == s.last() && g != f) by {
            if g == s.last() && g != f {
                assert(tail[0] == g);
            }
            if tail.contains(g) {
                let i = choose|i: int| 0 <= i < tail.len() && tail[i] == g;
                assert(tail[i] == s.last());
            }
        }
        assert(s.contains(g) <==> front.contains(g) || g == s.last()) by {
            if front.contains(g) {
                let i = choose|i: int| 0 <= i < front.len() && front[i] == g;
                assert(s[i] == g);
            }
            if g == s.last() {
                assert(s[s.len() - 1] == g);
            }
            if s.contains(g) {
                let i = choose|i: int| 0 <= i < s.len() && s[i] == g;
                if i < s.len() - 1 {
                    assert(front[i] == g);
                }
            }
        }
    }
}

/// Removes every occurrence of a field from an error list.
pub fn remove_field_error(errors: &mut Vec<Field>, f: Field)
    ensures
        final(errors)@ == remove_field(old(errors)@, f),
{
    let ghost s = errors@;
    let mut out: Vec<Field> = Vec::new();
    let mut i: usize = 0;
    proof {
        assert(out@ =~= remove_field(s.take(0), f));
    }
    while i < errors.len()
        invariant
            0 <= i <= errors@.len(),
            errors@ == s,
            out@ == remove_field(s.take(i as int), f),
        decreases errors@.len() - i,
    {
        let g = errors[i];
        proof {
            assert(s.take(i + 1).drop_last() =~= s.take(i as int));
            assert(s.take(i + 1).last() == s[i as int]);
        }
        if g != f {
            out.push(g);
        }
        proof {
            if s[i as int] == f {
                assert(out@ =~= remove_field(s.take(i + 1), f));
            } else {
                assert(out@ =~= remove_field(s.take(i + 1), f));
            }
        }
        i = i + 1;
    }
    proof {
        assert(s.take(s.len() as int) =~= s);
    }
    *errors = out;
}

} // verus!
