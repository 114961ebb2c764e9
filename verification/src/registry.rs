//! The configuration-key registry and its generator.
//!
//! The engine declares each of its configuration keys in its public header
//! with a line of the shape
//!
//! ```text
//! #define MPS_KEY_<NAME>_FIELD <field>
//! ```
//!
//! naming the key and the member of the engine's tagged-union payload that
//! carries the key's value. [`generate_registry`] scans the header's lines
//! for exactly that shape and produces a [`Registry`]: one descriptor per
//! discovered key name, mapping it to its payload field. The registry is the
//! single source of truth for which keys exist; anything absent from it is
//! rejected by the argument-list builder before any foreign call. Malformed
//! lines are skipped, never fatal: a key that does not appear simply stays
//! unavailable.

use vstd::prelude::*;

verus! {

/// Whether `b` is a horizontal blank (space or tab), the separator the
/// declaration shape allows.
pub open spec fn is_blank(b: u8) -> bool {
    b == ' ' as u8 || b == '\t' as u8
}

/// Whether `b` may appear in a key name: an upper-case ASCII letter or an
/// underscore.
pub open spec fn is_upper(b: u8) -> bool {
    b == '_' as u8 || ('A' as u8 <= b && b <= 'Z' as u8)
}

/// Whether `b` may appear in a payload field name: a lower-case ASCII letter
/// or an underscore.
pub open spec fn is_lower(b: u8) -> bool {
    b == '_' as u8 || ('a' as u8 <= b && b <= 'z' as u8)
}

/// The end of the run of blanks that starts at `i`: the first index at or
/// after `i` holding a non-blank byte, or the length of `s`.
pub open spec fn blank_run_end(s: Seq<u8>, i: int) -> int
    decreases s.len() - i when 0 <= i <= s.len()
{
    if i < s.len() && is_blank(s[i]) {
        blank_run_end(s, i + 1)
    } else {
        i
    }
}

/// The end of the run of key-name bytes (`A`-`Z`, `_`) that starts at `i`.
pub open spec fn upper_run_end(s: Seq<u8>, i: int) -> int
    decreases s.len() - i when 0 <= i <= s.len()
{
    if i < s.len() && is_upper(s[i]) {
        upper_run_end(s, i + 1)
    } else {
        i
    }
}

/// The end of the run of field-name bytes (`a`-`z`, `_`) that starts at `i`.
pub open spec fn lower_run_end(s: Seq<u8>, i: int) -> int
    decreases s.len() - i when 0 <= i <= s.len()
{
    if i < s.len() && is_lower(s[i]) {
        lower_run_end(s, i + 1)
    } else {
        i
    }
}

/// Whether the seven bytes of `#define` stand in `s` at index `i`.
pub open spec fn define_at(s: Seq<u8>, i: int) -> bool {
    &&& 0 <= i
    &&& i + 7 <= s.len()
    &&& s[i] == '#' as u8
    &&& s[i + 1] == 'd' as u8
    &&& s[i + 2] == 'e' as u8
    &&& s[i + 3] == 'f' as u8
    &&& s[i + 4] == 'i' as u8
    &&& s[i + 5] == 'n' as u8
    &&& s[i + 6] == 'e' as u8
}

/// Whether the eight bytes of the key prefix `MPS_KEY_` stand in `s` at
/// index `i`.
pub open spec fn key_prefix_at(s: Seq<u8>, i: int) -> bool {
    &&& 0 <= i
    &&& i + 8 <= s.len()
    &&& s[i] == 'M' as u8
    &&& s[i + 1] == 'P' as u8
    &&& s[i + 2] == 'S' as u8
    &&& s[i + 3] == '_' as u8
    &&& s[i + 4] == 'K' as u8
    &&& s[i + 5] == 'E' as u8
    &&& s[i + 6] == 'Y' as u8
    &&& s[i + 7] == '_' as u8
}

/// Whether the six bytes of the suffix `_FIELD` stand in `s` at index `i`.
pub open spec fn field_suffix_at(s: Seq<u8>, i: int) -> bool {
    &&& 0 <= i
    &&& i + 6 <= s.len()
    &&& s[i] == '_' as u8
    &&& s[i + 1] == 'F' as u8
    &&& s[i + 2] == 'I' as u8
    &&& s[i + 3] == 'E' as u8
    &&& s[i + 4] == 'L' as u8
    &&& s[i + 5] == 'D' as u8
}

/// The declaration a header line makes, if any.
///
/// A line declares the key `NAME` with payload field `field` exactly when it
/// has the shape `#define` , one or more blanks, `MPS_KEY_` , a maximal run
/// of key-name bytes that ends in `_FIELD` and holds at least one byte
/// before that suffix, one or more blanks, and a run of at least one
/// field-name byte. The field is the full run; anything after it is
/// ignored, and any line of another shape declares nothing.
pub open spec fn parse_decl(line: Seq<u8>) -> Option<(Seq<u8>, Seq<u8>)> {
    if !define_at(line, 0) {
        None
    } else {
        let key_at = blank_run_end(line, 7);
        if key_at == 7 || !key_prefix_at(line, key_at) {
            None
        } else {
            let tok_start = key_at + 8;
            let tok_end = upper_run_end(line, tok_start);
            if tok_end - tok_start < 7 || !field_suffix_at(line, tok_end - 6) {
                None
            } else {
                let field_at = blank_run_end(line, tok_end);
                if field_at == tok_end {
                    None
                } else {
                    let field_end = lower_run_end(line, field_at);
                    if field_end == field_at {
                        None
                    } else {
                        Some(
                            (line.subrange(tok_start, tok_end - 6), line.subrange(
                                field_at,
                                field_end,
                            )),
                        )
                    }
                }
            }
        }
    }
}

/// One rule of the registry: the key name as it appears in the header, and
/// the payload field that must receive the caller's value.
pub struct KeyDescriptor {
    /// The key name, without the `MPS_KEY_` prefix or the `_FIELD` suffix.
    pub name: Vec<u8>,
    /// The member of the engine's tagged-union payload for this key.
    pub field: Vec<u8>,
}

proof fn lemma_blank_run_is(s: Seq<u8>, i: int, j: int)
    requires
        0 <= i <= j <= s.len(),
        forall|k: int| i <= k < j ==> is_blank(s[k]),
        j == s.len() || !is_blank(s[j]),
    ensures
        blank_run_end(s, i) == j,
    decreases j - i,
{
    if i < j {
        lemma_blank_run_is(s, i + 1, j);
    }
}

proof fn lemma_upper_run_is(s: Seq<u8>, i: int, j: int)
    requires
        0 <= i <= j <= s.len(),
        forall|k: int| i <= k < j ==> is_upper(s[k]),
        j == s.len() || !is_upper(s[j]),
    ensures
        upper_run_end(s, i) == j,
    decreases j - i,
{
    if i < j {
        lemma_upper_run_is(s, i + 1, j);
    }
}

proof fn lemma_lower_run_is(s: Seq<u8>, i: int, j: int)
    requires
        0 <= i <= j <= s.len(),
        forall|k: int| i <= k < j ==> is_lower(s[k]),
        j == s.len() || !is_lower(s[j]),
    ensures
        lower_run_end(s, i) == j,
    decreases j - i,
{
    if i < j {
        lemma_lower_run_is(s, i + 1, j);
    }
}

fn scan_blanks(line: &[u8], from: usize) -> (r: usize)
    requires
        from <= line@.len(),
    ensures
        r == blank_run_end(line@, from as int),
        from <= r <= line@.len(),
    decreases line@.len() - from,
{
    let mut i: usize = from;
    while i < line.len() && (line[i] == ' ' as u8 || line[i] == '\t' as u8)
        invariant
            from <= i <= line@.len(),
            forall|k: int| from <= k < i ==> is_blank(line@[k]),
        decreases line@.len() - i,
    {
        i = i + 1;
    }
    proof {
        lemma_blank_run_is(line@, from as int, i as int);
    }
    i
}

fn scan_upper(line: &[u8], from: usize) -> (r: usize)
    requires
        from <= line@.len(),
    ensures
        r == upper_run_end(line@, from as int),
        from <= r <= line@.len(),
    decreases line@.len() - from,
{
    let mut i: usize = from;
    while i < line.len() && (line[i] == '_' as u8 || ('A' as u8 <= line[i] && line[i] <= 'Z' as u8))
        invariant
            from <= i <= line@.len(),
            forall|k: int| from <= k < i ==> is_upper(line@[k]),
        decreases line@.len() - i,
    {
        i = i + 1;
    }
    proof {
        lemma_upper_run_is(line@, from as int, i as int);
    }
    i
}

fn scan_lower(line: &[u8], from: usize) -> (r: usize)
    requires
        from <= line@.len(),
    ensures
        r == lower_run_end(line@, from as int),
        from <= r <= line@.len(),
    decreases line@.len() - from,
{
    let mut i: usize = from;
    while i < line.len() && (line[i] == '_' as u8 || ('a' as u8 <= line[i] && line[i] <= 'z' as u8))
        invariant
            from <= i <= line@.len(),
            forall|k: int| from <= k < i ==> is_lower(line@[k]),
        decreases line@.len() - i,
    {
        i = i + 1;
    }
    proof {
        lemma_lower_run_is(line@, from as int, i as int);
    }
    i
}

fn copy_range(line: &[u8], from: usize, to: usize) -> (r: Vec<u8>)
    requires
        from <= to <= line@.len(),
    ensures
        r@ == line@.subrange(from as int, to as int),
{
    let mut out: Vec<u8> = Vec::new();
    let mut i: usize = from;
    while i < to
        invariant
            from <= i <= to <= line@.len(),
            out@ == line@.subrange(from as int, i as int),
        decreases to - i,
    {
        out.push(line[i]);
        proof {
            assert(out@ =~= line@.subrange(from as int, i + 1));
        }
        i = i + 1;
    }
    out
}

/// Scans one header line for a configuration-key declaration.
///
/// Returns the key descriptor exactly when the line has the declaration
/// shape that [`parse_decl`] describes, and `None` for every other line.
pub fn parse_key_line(line: &[u8]) -> (r: Option<KeyDescriptor>)
    ensures
        match r {
            Some(d) => parse_decl(line@) == Some((d.name@, d.field@)),
            None => parse_decl(line@) is None,
        },
{
    if line.len() < 7 {
        return None;
    }
    if !(line[0] == '#' as u8 && line[1] == 'd' as u8 && line[2] == 'e' as u8 && line[3]
        == 'f' as u8 && line[4] == 'i' as u8 && line[5] == 'n' as u8 && line[6] == 'e' as u8) {
        return None;
    }
    let key_at = scan_blanks(line, 7);
    if key_at == 7 {
        return None;
    }
    if line.len() - key_at < 8 {
        return None;
    }
    if !(line[key_at] == 'M' as u8 && line[key_at + 1] == 'P' as u8 && line[key_at + 2]
        == 'S' as u8 && line[key_at + 3] == '_' as u8 && line[key_at + 4] == 'K' as u8
        && line[key_at + 5] == 'E' as u8 && line[key_at + 6] == 'Y' as u8 && line[key_at + 7]
        == '_' as u8) {
        return None;
    }
    let tok_start = key_at + 8;
    let tok_end = scan_upper(line, tok_start);
    if tok_end - tok_start < 7 {
        return None;
    }
    let suf = tok_end - 6;
    if !(line[suf] == '_' as u8 && line[suf + 1] == 'F' as u8 && line[suf + 2] == 'I' as u8
        && line[suf + 3] == 'E' as u8 && line[suf + 4] == 'L' as u8 && line[suf + 5]
        == 'D' as u8) {
        return None;
    }
    let field_at = scan_blanks(line, tok_end);
    if field_at == tok_end {
        return None;
    }
    let field_end = scan_lower(line, field_at);
    if field_end == field_at {
        return None;
    }
    let name = copy_range(line, tok_start, tok_end - 6);
    let field = copy_range(line, field_at, field_end);
    Some(KeyDescriptor { name, field })
}

/// The mapping a sequence of descriptors represents: each name to its field.
pub open spec fn keys_map(ks: Seq<KeyDescriptor>) -> Map<Seq<u8>, Seq<u8>>
    decreases ks.len(),
{
    if ks.len() == 0 {
        Map::empty()
    } else {
        keys_map(ks.drop_last()).insert(ks.last().name@, ks.last().field@)
    }
}

/// The registry a header declares: each key name maps to the payload field
/// of its first declaration, and later declarations of the same name change
/// nothing.
pub open spec fn registry_model(lines: Seq<Seq<u8>>) -> Map<Seq<u8>, Seq<u8>>
    decreases lines.len(),
{
    if lines.len() == 0 {
        Map::empty()
    } else {
        let m = registry_model(lines.drop_last());
        match parse_decl(lines.last()) {
            Some(nf) => if m.dom().contains(nf.0) {
                m
            } else {
                m.insert(nf.0, nf.1)
            },
            None => m,
        }
    }
}

/// Whether no key name appears twice among the descriptors.
pub open spec fn names_unique(ks: Seq<KeyDescriptor>) -> bool {
    forall|p: int, q: int| 0 <= p < q < ks.len() ==> ks[p].name@ != ks[q].name@
}

/// The generated configuration-key registry: one construction rule per key
/// name the header declares.
///
/// Its view is the map from key name to payload field; well-formedness says
/// each name owns exactly one rule.
pub struct Registry {
    keys: Vec<KeyDescriptor>,
}

impl View for Registry {
    type V = Map<Seq<u8>, Seq<u8>>;

    closed spec fn view(&self) -> Map<Seq<u8>, Seq<u8>> {
        keys_map(self.keys@)
    }
}

impl Registry {
    /// The registry's rules in the order their keys first appear in the
    /// header.
    pub closed spec fn rules(self) -> Seq<KeyDescriptor> {
        self.keys@
    }

    /// Well-formedness: no key name owns two rules.
    pub open spec fn wf(self) -> bool {
        names_unique(self.rules())
    }

    /// The number of rules, one per known key.
    pub fn rule_count(&self) -> (r: usize)
        ensures
            r == self.rules().len(),
    {
        self.keys.len()
    }

    /// The rule at position `i`, in first-appearance order.
    pub fn rule_at(&self, i: usize) -> (r: &KeyDescriptor)
        requires
            i < self.rules().len(),
        ensures
            r.name@ == self.rules()[i as int].name@,
            r.field@ == self.rules()[i as int].field@,
    {
        &self.keys[i]
    }

    /// Whether the registry knows the key `name`.
    pub fn contains_key(&self, name: &[u8]) -> (r: bool)
        ensures
            r == self@.dom().contains(name@),
    {
        proof {
            lemma_keys_map_membership(self.keys@, name@);
        }
        let n = self.keys.len();
        let mut i: usize = 0;
        while i < n
            invariant
                i <= n == self.keys@.len(),
                forall|k: int| 0 <= k < i ==> self.keys@[k].name@ != name@,
            decreases n - i,
        {
            if bytes_eq(self.keys[i].name.as_slice(), name) {
                proof {
                    lemma_keys_map_membership(self.keys@, name@);
                    assert(self.keys@[i as int].name@ == name@);
                }
                return true;
            }
            i = i + 1;
        }
        false
    }

    /// The rule for the key `name`, if the registry knows it.
    ///
    /// Returns the descriptor whose field the registry's view assigns to
    /// `name`, and `None` exactly when no rule for `name` exists.
    pub fn lookup(&self, name: &[u8]) -> (r: Option<&KeyDescriptor>)
        requires
            self.wf(),
        ensures
            r is Some <==> self@.dom().contains(name@),
            r matches Some(d) ==> d.name@ == name@ && d.field@ == self@[name@],
    {
        proof {
            lemma_keys_map_membership(self.keys@, name@);
        }
        let n = self.keys.len();
        let mut i: usize = 0;
        while i < n
            invariant
                i <= n == self.keys@.len(),
                self.wf(),
                forall|k: int| 0 <= k < i ==> self.keys@[k].name@ != name@,
            decreases n - i,
        {
            if bytes_eq(self.keys[i].name.as_slice(), name) {
                proof {
                    lemma_keys_map_membership(self.keys@, name@);
                    assert(self.keys@[i as int].name@ == name@);
                    assert(names_unique(self.keys@));
                    lemma_keys_map_value(self.keys@, i as int);
                }
                return Some(&self.keys[i]);
            }
            i = i + 1;
        }
        None
    }
}

/// Whether two byte strings hold the same bytes.
fn bytes_eq(a: &[u8], b: &[u8]) -> (r: bool)
    ensures
        r == (a@ == b@),
{
    if a.len() != b.len() {
        return false;
    }
    let n = a.len();
    let mut i: usize = 0;
    while i < n
        invariant
            i <= n == a@.len() == b@.len(),
            forall|k: int| 0 <= k < i ==> a@[k] == b@[k],
        decreases n - i,
    {
        if a[i] != b[i] {
            return false;
        }
        i = i + 1;
    }
    proof {
        assert(a@ =~= b@);
    }
    true
}

proof fn lemma_keys_map_membership(ks: Seq<KeyDescriptor>, n: Seq<u8>)
    ensures
        keys_map(ks).dom().contains(n) <==> exists|i: int| 0 <= i < ks.len() && ks[i].name@ == n,
    decreases ks.len(),
{
    if ks.len() > 0 {
        lemma_keys_map_membership(ks.drop_last(), n);
        if keys_map(ks).dom().contains(n) && ks.last().name@ != n {
            let i = choose|i: int| 0 <= i < ks.drop_last().len() && ks.drop_last()[i].name@ == n;
            assert(ks[i].name@ == n);
        }
        if exists|i: int| 0 <= i < ks.len() && ks[i].name@ == n {
            let i = choose|i: int| 0 <= i < ks.len() && ks[i].name@ == n;
            if i < ks.len() - 1 {
                assert(ks.drop_last()[i].name@ == n);
            }
        }
    }
}

proof fn lemma_keys_map_value(ks: Seq<KeyDescriptor>, i: int)
    requires
        0 <= i < ks.len(),
        names_unique(ks),
    ensures
        keys_map(ks).dom().contains(ks[i].name@),
        keys_map(ks)[ks[i].name@] == ks[i].field@,
    decreases ks.len(),
{
    if i == ks.len() - 1 {
    } else {
        assert(ks.drop_last()[i] == ks[i]);
        assert(names_unique(ks.drop_last()));
        lemma_keys_map_value(ks.drop_last(), i);
        assert(ks.last().name@ != ks[i].name@);
    }
}

/// Scans the header's lines and generates the registry.
///
/// Every line that declares a key contributes its rule; a name declared more
/// than once keeps the field of its first declaration; every other line is
/// skipped. The result is exactly [`registry_model`] of the lines, with one
/// rule per declared name.
pub fn generate_registry(lines: &Vec<Vec<u8>>) -> (r: Registry)
    ensures
        r.wf(),
        r@ == registry_model(lines.deep_view()),
{
    let ghost all = lines.deep_view();
    let mut reg = Registry { keys: Vec::new() };
    assert(reg@ =~= registry_model(all.subrange(0, 0)));
    let n = lines.len();
    let mut i: usize = 0;
    while i < n
        invariant
            i <= n == lines@.len(),
            all == lines.deep_view(),
            reg.wf(),
            reg@ == registry_model(all.subrange(0, i as int)),
        decreases n - i,
    {
        proof {
            assert(all.subrange(0, i + 1).drop_last() =~= all.subrange(0, i as int));
            assert(all[i as int] == lines@[i as int]@);
        }
        match parse_key_line(lines[i].as_slice()) {
            Some(d) => {
                if !reg.contains_key(d.name.as_slice()) {
                    proof {
                        lemma_keys_map_membership(reg.keys@, d.name@);
                        assert(forall|k: int|
                            0 <= k < reg.keys@.len() ==> reg.keys@[k].name@ != d.name@);
                    }
                    let ghost before = reg.keys@;
                    reg.keys.push(d);
                    proof {
                        assert(reg.keys@.drop_last() =~= before);
                        assert(names_unique(reg.keys@)) by {
                            assert(forall|k: int|
                                0 <= k < before.len() ==> #[trigger] before[k].name@
                                    != reg.keys@[before.len() as int].name@);
                        }
                    }
                }
            },
            None => {},
        }
        i = i + 1;
    }
    proof {
        assert(all.subrange(0, n as int) =~= all);
    }
    reg
}

/// Every key name the header declares owns exactly one rule in the
/// generated registry, and that rule's payload field is the one its first
/// declaration names: for the first line that declares `n`, the registry
/// maps `n` to exactly that line's field.
pub proof fn lemma_registry_complete(lines: Seq<Seq<u8>>, n: Seq<u8>, f: Seq<u8>, i: int)
    requires
        0 <= i < lines.len(),
        parse_decl(lines[i]) == Some((n, f)),
        forall|j: int|
            0 <= j < i ==> !(#[trigger] parse_decl(lines[j]) matches Some(nf) && nf.0 == n),
    ensures
        registry_model(lines).dom().contains(n),
        registry_model(lines)[n] == f,
    decreases lines.len(),
{
    if i == lines.len() - 1 {
        lemma_registry_absent(lines.drop_last(), n);
    } else {
        assert(lines.drop_last()[i] == lines[i]);
        lemma_registry_complete(lines.drop_last(), n, f, i);
    }
}

/// A name no line declares is absent from the registry.
pub proof fn lemma_registry_absent(lines: Seq<Seq<u8>>, n: Seq<u8>)
    requires
        forall|j: int|
            0 <= j < lines.len() ==> !(#[trigger] parse_decl(lines[j]) matches Some(nf) && nf.0
                == n),
    ensures
        !registry_model(lines).dom().contains(n),
    decreases lines.len(),
{
    if lines.len() > 0 {
        assert(parse_decl(lines[lines.len() - 1]) matches Some(nf) ==> nf.0 != n);
        lemma_registry_absent(lines.drop_last(), n);
    }
}

/// Every rule in the registry comes from a declaration in the header: a
/// name the registry knows is declared by some line, with exactly the field
/// the registry assigns to it.
pub proof fn lemma_registry_sound(lines: Seq<Seq<u8>>, n: Seq<u8>)
    requires
        registry_model(lines).dom().contains(n),
    ensures
        exists|i: int|
            0 <= i < lines.len() && #[trigger] parse_decl(lines[i]) == Some(
                (n, registry_model(lines)[n]),
            ),
    decreases lines.len(),
{
    if lines.len() > 0 {
        let m = registry_model(lines.drop_last());
        if m.dom().contains(n) && registry_model(lines)[n] == m[n] {
            lemma_registry_sound(lines.drop_last(), n);
            let i = choose|i: int|
                0 <= i < lines.drop_last().len() && #[trigger] parse_decl(lines.drop_last()[i])
                    == Some((n, m[n]));
            assert(parse_decl(lines[i]) == Some((n, registry_model(lines)[n])));
        } else {
            assert(parse_decl(lines[lines.len() - 1]) == Some((n, registry_model(lines)[n])));
        }
    }
}

} // verus!
