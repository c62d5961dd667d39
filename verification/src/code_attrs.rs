//! Attributes carried through intermediate-code generation: counters for
//! fresh temporaries and labels, the label that ends the enclosing loop, and
//! the code generated so far.

use vstd::prelude::*;
use crate::text::{dec_digits, push_u64};
use crate::const_type::lemma_digits_of_value;

verus! {

/// The name of the temporary created as the `c`-th: `t` and `c` in decimal.
pub open spec fn temp_name(c: nat) -> Seq<char> {
    seq!['t'] + dec_digits(c)
}

/// The name of the label created as the `c`-th: `L` and `c` in decimal.
pub open spec fn label_name(c: nat) -> Seq<char> {
    seq!['L'] + dec_digits(c)
}

/// Attributes of intermediate-code generation.
pub struct CodeAttrs {
    pub register_counter: u32,
    pub label_counter: u32,
    pub break_label: String,
    pub code: String,
}

impl CodeAttrs {
    /// How many temporaries have been created.
    pub open spec fn temps_created(&self) -> nat {
        self.register_counter as nat
    }

    /// How many labels have been created.
    pub open spec fn labels_created(&self) -> nat {
        self.label_counter as nat
    }

    /// The label that ends the enclosing scope.
    pub open spec fn scope_label(&self) -> Seq<char> {
        self.break_label@
    }

    /// The code generated so far.
    pub open spec fn generated_code(&self) -> Seq<char> {
        self.code@
    }

    /// Attributes with no temporary or label created, no scope label and no
    /// code.
    pub fn new() -> (r: Self)
        ensures
            r.temps_created() == 0,
            r.labels_created() == 0,
            r.scope_label() == Seq::<char>::empty(),
            r.generated_code() == Seq::<char>::empty(),
    {
        CodeAttrs {
            register_counter: 0,
            label_counter: 0,
            break_label: String::new(),
            code: String::new(),
        }
    }

    /// Creates a fresh temporary `tN`, where `N` counts the temporaries
    /// created so far, this one included.
    pub fn create_temp(&mut self) -> (temp: String)
        requires
            old(self).temps_created() < u32::MAX,
        ensures
            final(self).temps_created() == old(self).temps_created() + 1,
            final(self).labels_created() == old(self).labels_created(),
            final(self).scope_label() == old(self).scope_label(),
            final(self).generated_code() == old(self).generated_code(),
            temp@ == temp_name(final(self).temps_created()),
    {
        self.register_counter += 1;
        let mut temp = String::new();
        temp.append("t");
        push_u64(&mut temp, self.register_counter as u64);
        proof { reveal_strlit("t"); }
        assert(temp@ =~= seq!['t'] + dec_digits(self.register_counter as nat));
        temp
    }

    /// Creates a fresh label `LN`, where `N` counts the labels created so
    /// far, this one included.
    pub fn create_label(&mut self) -> (label: String)
        requires
            old(self).labels_created() < u32::MAX,
        ensures
            final(self).labels_created() == old(self).labels_created() + 1,
            final(self).temps_created() == old(self).temps_created(),
            final(self).scope_label() == old(self).scope_label(),
            final(self).generated_code() == old(self).generated_code(),
            label@ == label_name(final(self).labels_created()),
    {
        self.label_counter += 1;
        let mut label = String::new();
        label.append("L");
        push_u64(&mut label, self.label_counter as u64);
        proof { reveal_strlit("L"); }
        assert(label@ =~= seq!['L'] + dec_digits(self.label_counter as nat));
        label
    }

    /// The label that ends the enclosing scope.
    pub fn get_scope_label(&self) -> (r: &String)
        ensures
            r@ == self.scope_label(),
    {
        &self.break_label
    }

    /// The code generated, taken out of the attributes.
    pub fn into_code(self) -> (r: String)
        ensures
            r@ == self.generated_code(),
    {
        self.code
    }

    /// Sets the label that ends the enclosing scope.
    pub fn set_scope_end(&mut self, label: String)
        ensures
            final(self).scope_label() == label@,
            final(self).temps_created() == old(self).temps_created(),
            final(self).labels_created() == old(self).labels_created(),
            final(self).generated_code() == old(self).generated_code(),
    {
        self.break_label = label;
    }
}

/// Temporaries, and labels, created one after another have different names:
/// the number in a name determines it.
pub proof fn law_fresh_names_differ(n: nat, m: nat)
    requires
        n != m,
    ensures
        seq!['t'] + dec_digits(n) != seq!['t'] + dec_digits(m),
        seq!['L'] + dec_digits(n) != seq!['L'] + dec_digits(m),
{
    lemma_digits_of_value(n);
    lemma_digits_of_value(m);
    let a = seq!['t'] + dec_digits(n);
    let b = seq!['t'] + dec_digits(m);
    if a == b {
        assert(a.subrange(1, a.len() as int) =~= dec_digits(n));
        assert(b.subrange(1, b.len() as int) =~= dec_digits(m));
    }
    let c = seq!['L'] + dec_digits(n);
    let d = seq!['L'] + dec_digits(m);
    if c == d {
        assert(c.subrange(1, c.len() as int) =~= dec_digits(n));
        assert(d.subrange(1, d.len() as int) =~= dec_digits(m));
    }
}

/// A run of `k` temporaries created from attributes that had created `n`
/// gets the names of the counts `n + 1` to `n + k`: no two of the names
/// counted up to `n + k` are the same, so those of the run differ from one
/// another and from every name created before; likewise for labels.
pub proof fn law_runs_of_fresh_names(n: nat, k: nat)
    ensures
        forall|a: nat, b: nat| a < b <= n + k ==> #[trigger] temp_name(a) != #[trigger] temp_name(b),
        forall|a: nat, b: nat| a < b <= n + k ==> #[trigger] label_name(a) != #[trigger] label_name(b),
{
    assert forall|a: nat, b: nat| a < b <= n + k implies #[trigger] temp_name(a) != #[trigger] temp_name(b) by {
        law_fresh_names_differ(a, b);
    }
    assert forall|a: nat, b: nat| a < b <= n + k implies #[trigger] label_name(a) != #[trigger] label_name(b) by {
        law_fresh_names_differ(a, b);
    }
}

} // verus!
