//! Identity assignment and rendering.
//!
//! Every anonymous schema node encountered during flattening receives a
//! synthetic identity `Assigned(root, n)` from a shared counter that grows by
//! exactly one per assignment, in traversal order.  An identity renders as
//! `_{root}_{n}_anonymous`; a user-given name renders as itself.

use vstd::prelude::*;
use vstd::string::StringExecFns;

use crate::schema::{SchemaName, SchemaNameV};

verus! {

/// A structural error detected during flattening.  Each carries the field or
/// variant name that triggered it and the nesting depth (the root schema is
/// at depth zero) so that deep trees produce actionable reports.
#[derive(Debug, Clone, PartialEq, Eq)]
pub enum FlattenError {
    AnonymousRoot,
    DuplicateField { name: String, depth: u64 },
    DuplicateVariant { name: String, depth: u64 },
    MalformedCardinality { name: String, depth: u64 },
}

pub enum FlattenErrorV {
    AnonymousRoot,
    DuplicateField { name: Seq<char>, depth: u64 },
    DuplicateVariant { name: Seq<char>, depth: u64 },
    MalformedCardinality { name: Seq<char>, depth: u64 },
}

impl FlattenError {
    pub open spec fn dv(&self) -> FlattenErrorV {
        match self {
            FlattenError::AnonymousRoot => FlattenErrorV::AnonymousRoot,
            FlattenError::DuplicateField { name, depth } => FlattenErrorV::DuplicateField {
                name: name@,
                depth: *depth,
            },
            FlattenError::DuplicateVariant { name, depth } => FlattenErrorV::DuplicateVariant {
                name: name@,
                depth: *depth,
            },
            FlattenError::MalformedCardinality { name, depth } => FlattenErrorV::MalformedCardinality {
                name: name@,
                depth: *depth,
            },
        }
    }
}

// ---------------------------------------------------------------------------
// Decimal rendering of the sequence number.
// ---------------------------------------------------------------------------

pub open spec fn digit_char(d: nat) -> char {
    if d == 0 {
        '0'
    } else if d == 1 {
        '1'
    } else if d == 2 {
        '2'
    } else if d == 3 {
        '3'
    } else if d == 4 {
        '4'
    } else if d == 5 {
        '5'
    } else if d == 6 {
        '6'
    } else if d == 7 {
        '7'
    } else if d == 8 {
        '8'
    } else {
        '9'
    }
}

/// The usual decimal digit string of `n`, most significant digit first.
pub open spec fn decimal_digits(n: nat) -> Seq<char>
    decreases n,
{
    if n < 10 {
        seq![digit_char(n)]
    } else {
        decimal_digits(n / 10) + seq![digit_char(n % 10)]
    }
}

fn push_digit(out: &mut String, d: u64)
    requires
        d < 10,
    ensures
        final(out)@ == old(out)@ + seq![digit_char(d as nat)],
{
    if d == 0 {
        proof {
            reveal_strlit("0");
        }
        out.append("0");
        assert(out@ =~= old(out)@ + seq![digit_char(d as nat)]);
    } else if d == 1 {
        proof {
            reveal_strlit("1");
        }
        out.append("1");
        assert(out@ =~= old(out)@ + seq![digit_char(d as nat)]);
    } else if d == 2 {
        proof {
            reveal_strlit("2");
        }
        out.append("2");
        assert(out@ =~= old(out)@ + seq![digit_char(d as nat)]);
    } else if d == 3 {
        proof {
            reveal_strlit("3");
        }
        out.append("3");
        assert(out@ =~= old(out)@ + seq![digit_char(d as nat)]);
    } else if d == 4 {
        proof {
            reveal_strlit("4");
        }
        out.append("4");
        assert(out@ =~= old(out)@ + seq![digit_char(d as nat)]);
    } else if d == 5 {
        proof {
            reveal_strlit("5");
        }
        out.append("5");
        assert(out@ =~= old(out)@ + seq![digit_char(d as nat)]);
    } else if d == 6 {
        proof {
            reveal_strlit("6");
        }
        out.append("6");
        assert(out@ =~= old(out)@ + seq![digit_char(d as nat)]);
    } else if d == 7 {
        proof {
            reveal_strlit("7");
        }
        out.append("7");
        assert(out@ =~= old(out)@ + seq![digit_char(d as nat)]);
    } else if d == 8 {
        proof {
            reveal_strlit("8");
        }
        out.append("8");
        assert(out@ =~= old(out)@ + seq![digit_char(d as nat)]);
    } else {
        proof {
            reveal_strlit("9");
        }
        out.append("9");
        assert(out@ =~= old(out)@ + seq![digit_char(d as nat)]);
    }
}

pub fn push_decimal(out: &mut String, n: u64)
    ensures
        final(out)@ == old(out)@ + decimal_digits(n as nat),
    decreases n,
{
    if n < 10 {
        push_digit(out, n);
    } else {
        push_decimal(out, n / 10);
        push_digit(out, n % 10);
        assert(out@ =~= old(out)@ + decimal_digits(n as nat));
    }
}

// ---------------------------------------------------------------------------
// Identity rendering.
// ---------------------------------------------------------------------------

/// The synthetic identity of the `n`-th anonymous schema under `root`.
pub open spec fn assigned_identity(root: Seq<char>, n: nat) -> Seq<char> {
    seq!['_'] + root + seq!['_'] + decimal_digits(n) + "_anonymous"@
}

pub open spec fn is_identified(name: SchemaNameV) -> bool {
    !(name is Anonymous)
}

/// What an identified schema name renders to.
pub open spec fn identity_of(name: SchemaNameV) -> Seq<char> {
    match name {
        SchemaNameV::Named(s) => s,
        SchemaNameV::Assigned(root, n) => assigned_identity(root, n as nat),
        SchemaNameV::Anonymous => Seq::empty(),
    }
}

/// Renders the synthetic identity `_{root}_{n}_anonymous`.
pub fn render_assigned(root: &String, n: u64) -> (s: String)
    ensures
        s@ == assigned_identity(root@, n as nat),
{
    let mut out = String::new();
    proof {
        reveal_strlit("_");
    }
    out.append("_");
    out.append(root.as_str());
    out.append("_");
    push_decimal(&mut out, n);
    out.append("_anonymous");
    assert(out@ =~= assigned_identity(root@, n as nat));
    out
}

/// Renders a schema name as the identity used in the flat output.  A name
/// that never received an identity cannot be rendered: that is the anonymous
/// root error, as a schema that is still anonymous when its name is needed
/// can only be an unsupported anonymous root.
pub fn to_identity(name: &SchemaName) -> (r: Result<String, FlattenError>)
    ensures
        r is Err <==> name.dv() is Anonymous,
        r matches Err(e) ==> e.dv() is AnonymousRoot,
        r matches Ok(s) ==> s@ == identity_of(name.dv()),
{
    match name {
        SchemaName::Named(s) => Ok(s.clone()),
        SchemaName::Anonymous => Err(FlattenError::AnonymousRoot),
        SchemaName::Assigned(root, n) => Ok(render_assigned(root, *n)),
    }
}

/// Renders a name that is known to be identified.
pub fn identity_string(name: &SchemaName) -> (s: String)
    requires
        is_identified(name.dv()),
    ensures
        s@ == identity_of(name.dv()),
{
    match name {
        SchemaName::Named(s) => s.clone(),
        SchemaName::Anonymous => {
            // excluded by the precondition
            proof {
                assert(false);
            }
            String::new()
        },
        SchemaName::Assigned(root, n) => render_assigned(root, *n),
    }
}

// ---------------------------------------------------------------------------
// The identity assigner.
// ---------------------------------------------------------------------------

/// One step of the identity assigner: a user-given or already assigned name
/// passes through unchanged; an anonymous name receives the next sequence
/// number and the counter advances by one.
pub open spec fn assign_spec(name: SchemaNameV, root: Seq<char>, ctr: nat) -> (SchemaNameV, nat) {
    match name {
        SchemaNameV::Anonymous => (SchemaNameV::Assigned(root, ctr as u64), ctr + 1),
        _ => (name, ctr),
    }
}

/// Assigns an identity to `name` under `root`, threading the counter.
pub fn assign_name(name: &SchemaName, root: &String, ctr: u64) -> (r: (SchemaName, u64))
    requires
        name.dv() is Anonymous ==> ctr < u64::MAX,
    ensures
        r.0.dv() == assign_spec(name.dv(), root@, ctr as nat).0,
        r.1 as nat == assign_spec(name.dv(), root@, ctr as nat).1,
        is_identified(r.0.dv()),
{
    match name {
        SchemaName::Named(s) => (SchemaName::Named(s.clone()), ctr),
        SchemaName::Anonymous => (SchemaName::Assigned(root.clone(), ctr), ctr + 1),
        SchemaName::Assigned(r, n) => (SchemaName::Assigned(r.clone(), *n), ctr),
    }
}

/// Law: identity assignment is idempotent.  Assigning an identity to the
/// same node twice within one pass yields the same identity both times, and
/// the second assignment does not advance the counter.
pub proof fn lemma_assign_idempotent(name: SchemaNameV, root: Seq<char>, ctr: nat)
    ensures
        ({
            let (n1, c1) = assign_spec(name, root, ctr);
            assign_spec(n1, root, c1) == (n1, c1)
        }),
{
}

/// Law: distinct assignments under one root render to distinct identities,
/// because the decimal digit string determines the sequence number.
pub proof fn lemma_assigned_identities_distinct(root: Seq<char>, m: nat, n: nat)
    requires
        m != n,
    ensures
        assigned_identity(root, m) != assigned_identity(root, n),
{
    if decimal_digits(m) == decimal_digits(n) {
        lemma_decimal_digits_injective(m, n);
    } else {
        lemma_decimal_prefix_free(root, m, n);
    }
}

/// The decimal digit string is injective.
proof fn lemma_decimal_digits_injective(m: nat, n: nat)
    requires
        decimal_digits(m) == decimal_digits(n),
    ensures
        m == n,
    decreases m,
{
    lemma_decimal_digits_len(m);
    lemma_decimal_digits_len(n);
    if m < 10 && n < 10 {
        assert(decimal_digits(m)[0] == digit_char(m));
        assert(decimal_digits(n)[0] == digit_char(n));
    } else if m >= 10 && n >= 10 {
        assert(decimal_digits(m).last() == digit_char(m % 10));
        assert(decimal_digits(n).last() == digit_char(n % 10));
        assert(decimal_digits(m).drop_last() =~= decimal_digits(m / 10));
        assert(decimal_digits(n).drop_last() =~= decimal_digits(n / 10));
        lemma_decimal_digits_injective(m / 10, n / 10);
        assert(m % 10 == n % 10);
    }
}

proof fn lemma_decimal_digits_len(n: nat)
    ensures
        decimal_digits(n).len() >= 1,
        n >= 10 ==> decimal_digits(n).len() >= 2,
        forall|i: int|
            0 <= i < decimal_digits(n).len() ==> exists|d: nat|
                d < 10 && #[trigger] decimal_digits(n)[i] == digit_char(d),
    decreases n,
{
    if n >= 10 {
        lemma_decimal_digits_len(n / 10);
        assert forall|i: int| 0 <= i < decimal_digits(n).len() implies exists|d: nat|
            d < 10 && #[trigger] decimal_digits(n)[i] == digit_char(d) by {
            if i < decimal_digits(n / 10).len() {
                assert(decimal_digits(n)[i] == decimal_digits(n / 10)[i]);
            } else {
                assert(decimal_digits(n)[i] == digit_char(n % 10));
                assert(n % 10 < 10);
            }
        }
    }
}

/// If the digit strings of `m` and `n` differ, the rendered identities
/// differ as well: the two renderings agree up to the second underscore, and
/// after it one digit string would have to be a strict prefix of the other,
/// which cannot happen because a longer decimal string encodes a larger
/// number and no digit is an underscore.
proof fn lemma_decimal_prefix_free(root: Seq<char>, m: nat, n: nat)
    requires
        decimal_digits(m) != decimal_digits(n),
    ensures
        assigned_identity(root, m) != assigned_identity(root, n),
{
    reveal_strlit("_anonymous");
    lemma_decimal_digits_len(m);
    lemma_decimal_digits_len(n);
    let dm = decimal_digits(m);
    let dn = decimal_digits(n);
    let pre = seq!['_'] + root + seq!['_'];
    if assigned_identity(root, m) == assigned_identity(root, n) {
        let am = assigned_identity(root, m);
        let an = assigned_identity(root, n);
        assert(am.len() == an.len());
        assert(dm.len() == dn.len());
        assert forall|i: int| 0 <= i < dm.len() implies dm[i] == dn[i] by {
            assert(am[pre.len() + i] == dm[i]);
            assert(an[pre.len() + i] == dn[i]);
        }
        assert(dm =~= dn);
    }
}

} // verus!
