//! Descriptions of the vector back ends for which vector code is generated:
//! AES sizes, pairwise operators, and the Intel intrinsics that the AVX2
//! back end may use (their documentation and the CPU features they need).
use vstd::prelude::*;
use vstd::string::*;

pub mod xml;

verus! {

/// A pairwise operation on the lanes of two vectors.
#[derive(Debug, Clone, Copy, PartialEq, Eq, Structural)]
pub enum PairwiseOperator {
    /// Wrapping addition.
    WrappingAdd,
    /// Wrapping subtraction.
    WrappingSub,
    /// Bitwise XOR.
    Xor,
    /// Bitwise OR.
    Or,
    /// Bitwise AND.
    And,
}

/// The supported AES key sizes.
#[derive(Debug, Clone, Copy, PartialEq, Eq, Structural)]
pub enum AesSize {
    /// AES with a 128-bit key.
    Aes128,
    /// AES with a 256-bit key.
    Aes256,
}

/// The key size in bits.
pub open spec fn aes_bits(s: AesSize) -> nat {
    match s {
        AesSize::Aes128 => 128,
        AesSize::Aes256 => 256,
    }
}

/// The number of round keys in the key schedule.
pub open spec fn aes_num_rounds(s: AesSize) -> nat {
    match s {
        AesSize::Aes128 => 11,
        AesSize::Aes256 => 15,
    }
}

impl AesSize {
    /// Every AES size, smallest first.
    pub fn all() -> (v: Vec<AesSize>)
        ensures
            v@ == seq![AesSize::Aes128, AesSize::Aes256],
    {
        let mut v: Vec<AesSize> = Vec::new();
        v.push(AesSize::Aes128);
        v.push(AesSize::Aes256);
        v
    }

    /// The text of this size: its key size in bits, in decimal.
    pub fn to_text(&self) -> (s: String)
        ensures
            s@ == match *self {
                AesSize::Aes128 => "128"@,
                AesSize::Aes256 => "256"@,
            },
    {
        match self {
            AesSize::Aes128 => String::from_str("128"),
            AesSize::Aes256 => String::from_str("256"),
        }
    }

    /// The key size in bits.
    pub fn bits(&self) -> (b: usize)
        ensures
            b == aes_bits(*self),
    {
        match self {
            AesSize::Aes128 => 128,
            AesSize::Aes256 => 256,
        }
    }

    /// The number of round keys in the key schedule: one more than the
    /// number of rounds, which is the key size in 32-bit words plus six.
    pub fn num_rounds(&self) -> (n: usize)
        ensures
            n == aes_num_rounds(*self),
            n == aes_bits(*self) / 32 + 7,
    {
        match self {
            AesSize::Aes128 => 11,
            AesSize::Aes256 => 15,
        }
    }
}

/// The scalar (non-vector) back end, which works on every CPU.
pub struct Scalar;

impl Scalar {
    /// The back end variant this back end maps to.
    pub fn vector_backend_variant(&self) -> (s: &'static str)
        ensures
            s@ == "Scalar"@,
    {
        "Scalar"
    }

    /// Documentation added to scalar implementations: none.
    pub fn scalar_docs(&self) -> (s: String)
        ensures
            s@ == Seq::<char>::empty(),
    {
        String::new()
    }
}

/// The documentation added to scalar implementations in the AVX2 back end.
pub open spec fn avx2_scalar_docs() -> Seq<char> {
    "# AVX2\nThis function uses a scalar polyfill.\n"@
}

/// The prefix of AVX2 intrinsic names for vectors of the given width.
pub open spec fn avx2_prefix_of(bits: usize) -> Seq<char> {
    if bits == 128 {
        "_mm"@
    } else {
        "_mm256"@
    }
}

/// The prefix of AVX2 intrinsic names for vectors of `bits` bits: `_mm` for
/// 128-bit and `_mm256` for 256-bit vectors.
pub fn avx2_prefix(bits: usize) -> (s: &'static str)
    requires
        bits == 128 || bits == 256,
    ensures
        s@ == avx2_prefix_of(bits),
{
    if bits == 128 {
        "_mm"
    } else {
        "_mm256"
    }
}

/// The documentation added to scalar implementations in the AVX2 back end.
pub fn avx2_scalar_docs_string() -> (s: String)
    ensures
        s@ == avx2_scalar_docs(),
{
    String::from_str("# AVX2\nThis function uses a scalar polyfill.\n")
}

/// The CPU features (lower case) that the AVX2 back end requires.
pub open spec fn required_features() -> Seq<Seq<char>> {
    seq!["avx"@, "avx2"@, "sse4.1"@, "aes"@, "sse4.2"@, "ssse3"@, "pclmulqdq"@]
}

/// The CPU features (lower case) that the AVX2 back end requires.
pub fn required_feature_list() -> (v: Vec<&'static str>)
    ensures
        v@.map_values(|s: &'static str| s@) == required_features(),
{
    let v: Vec<&'static str> = vec!["avx", "avx2", "sse4.1", "aes", "sse4.2", "ssse3", "pclmulqdq"];
    proof {
        assert(v@.map_values(|s: &'static str| s@) =~= required_features());
    }
    v
}

/// The first required feature the CPU lacks, given for each feature of
/// [`required_feature_list`], in order, whether the CPU has it.
pub fn first_missing_feature(detected: &[bool]) -> (r: Option<usize>)
    requires
        detected@.len() == required_features().len(),
    ensures
        r is None <==> forall|i: int| 0 <= i < detected@.len() ==> #[trigger] detected@[i],
        r matches Some(i) ==> i < detected@.len() && !detected@[i as int] && forall|j: int|
            0 <= j < i ==> #[trigger] detected@[j],
{
    let mut i: usize = 0;
    while i < detected.len()
        invariant
            i <= detected@.len(),
            forall|j: int| 0 <= j < i ==> #[trigger] detected@[j],
        decreases detected@.len() - i,
    {
        if !detected[i] {
            return Some(i);
        }
        i = i + 1;
    }
    None
}

/// The lower-case form of `s`, as `str::to_lowercase` computes it.
pub uninterp spec fn lowercase(s: Seq<char>) -> Seq<char>;

/// Lower-cases `s` with `str::to_lowercase`.
///
/// Claims: the result is `lowercase(s)`, a function of `s` alone (the
/// Unicode lower-case mapping does not depend on the locale).
#[verifier::external_body]
fn str_to_lowercase(s: &str) -> (r: String)
    ensures
        r@ == lowercase(s@),
{
    s.to_lowercase()
}

/// Whether two strings hold the same characters.
pub fn str_eq(a: &str, b: &str) -> (r: bool)
    ensures
        r == (a@ == b@),
{
    let n = a.unicode_len();
    if n != b.unicode_len() {
        return false;
    }
    let mut i: usize = 0;
    while i < n
        invariant
            n == a@.len(),
            n == b@.len(),
            i <= n,
            forall|j: int| 0 <= j < i ==> a@[j] == b@[j],
        decreases n - i,
    {
        if a.get_char(i) != b.get_char(i) {
            return false;
        }
        i = i + 1;
    }
    proof {
        assert(a@ =~= b@);
    }
    true
}

/// The strings that mean `true` when parsing booleans permissively.
pub open spec fn true_words() -> Seq<Seq<char>> {
    seq!["true"@, "t"@, "yes"@, "y"@, "1"@]
}

/// The strings that mean `false` when parsing booleans permissively.
pub open spec fn false_words() -> Seq<Seq<char>> {
    seq!["false"@, "f"@, "no"@, "n"@, "0"@]
}

/// What [`parse_bool_permissive`] gives for `s`.
pub open spec fn parse_bool_permissive_spec(s: Option<Seq<char>>) -> core::result::Result<
    Option<bool>,
    Seq<char>,
> {
    match s {
        None => Ok(None),
        Some(s) => {
            let l = lowercase(s);
            if true_words().contains(l) {
                Ok(Some(true))
            } else if false_words().contains(l) {
                Ok(Some(false))
            } else {
                Err("Invalid Boolean string: "@ + l)
            }
        },
    }
}

/// Parse an optional boolean attribute permissively: case aside,
/// `true`, `t`, `yes`, `y` and `1` are true and `false`, `f`, `no`, `n`
/// and `0` are false; an absent attribute is `None`. Anything else is an
/// error whose message names the (lower-cased) string.
pub fn parse_bool_permissive(s: Option<&str>) -> (r: core::result::Result<Option<bool>, String>)
    ensures
        match (r, parse_bool_permissive_spec(
            match s {
                Some(x) => Some(x@),
                None => None,
            },
        )) {
            (Ok(a), Ok(b)) => a == b,
            (Err(a), Err(b)) => a@ == b,
            _ => false,
        },
{
    match s {
        None => Ok(None),
        Some(s) => {
            let l = str_to_lowercase(s);
            let ls = l.as_str();
            proof {
                reveal_strlit("true");
                reveal_strlit("t");
                reveal_strlit("yes");
                reveal_strlit("y");
                reveal_strlit("1");
                reveal_strlit("false");
                reveal_strlit("f");
                reveal_strlit("no");
                reveal_strlit("n");
                reveal_strlit("0");
            }
            if str_eq(ls, "true") || str_eq(ls, "t") || str_eq(ls, "yes") || str_eq(ls, "y")
                || str_eq(ls, "1") {
                proof {
                    assert(true_words().contains(lowercase(s@))) by {
                        if ls@ == "true"@ {
                            assert(true_words()[0] == ls@);
                        } else if ls@ == "t"@ {
                            assert(true_words()[1] == ls@);
                        } else if ls@ == "yes"@ {
                            assert(true_words()[2] == ls@);
                        } else if ls@ == "y"@ {
                            assert(true_words()[3] == ls@);
                        } else {
                            assert(true_words()[4] == ls@);
                        }
                    }
                }
                Ok(Some(true))
            } else if str_eq(ls, "false") || str_eq(ls, "f") || str_eq(ls, "no") || str_eq(
                ls,
                "n",
            ) || str_eq(ls, "0") {
                proof {
                    assert(!true_words().contains(lowercase(s@)));
                    assert(false_words().contains(lowercase(s@))) by {
                        if ls@ == "false"@ {
                            assert(false_words()[0] == ls@);
                        } else if ls@ == "f"@ {
                            assert(false_words()[1] == ls@);
                        } else if ls@ == "no"@ {
                            assert(false_words()[2] == ls@);
                        } else if ls@ == "n"@ {
                            assert(false_words()[3] == ls@);
                        } else {
                            assert(false_words()[4] == ls@);
                        }
                    }
                }
                Ok(Some(false))
            } else {
                proof {
                    assert(!true_words().contains(lowercase(s@)));
                    assert(!false_words().contains(lowercase(s@)));
                }
                let mut m = String::from_str("Invalid Boolean string: ");
                m.append(ls);
                Err(m)
            }
        },
    }
}


/// The character sequences of a sequence of strings.
pub open spec fn strings(v: Seq<String>) -> Seq<Seq<char>> {
    v.map_values(|s: String| s@)
}

/// An Intel intrinsic as the AVX2 back end records it.
pub struct Intrinsic {
    /// The intrinsic's name.
    pub name: String,
    /// Whether the intrinsic corresponds to an instruction sequence.
    pub sequence: bool,
    /// The CPU features the intrinsic needs.
    pub cpuid: Vec<String>,
    /// The instructions the intrinsic may compile to, with their operand
    /// forms.
    pub instructions: Vec<String>,
}

/// How an instruction of the intrinsics document is recorded: its name, a
/// space and its operand form (empty if none).
pub open spec fn instruction_text(i: xml::Instruction) -> Seq<char> {
    i.name@ + " "@ + match i.form {
        Some(f) => f@,
        None => Seq::<char>::empty(),
    }
}

/// The record of an intrinsic of the intrinsics document: its name, whether
/// it is a sequence (no when the document does not say), its CPU features
/// (none when not listed) and its instructions (none when not listed).
pub open spec fn intrinsic_of_xml(x: xml::Intrinsic, r: Intrinsic) -> bool {
    &&& r.name@ == x.name@
    &&& r.sequence == (x.sequence == Some(true))
    &&& strings(r.cpuid@) == match x.cpuid {
        Some(v) => strings(v@),
        None => Seq::<Seq<char>>::empty(),
    }
    &&& strings(r.instructions@) == match x.instruction {
        Some(v) => v@.map_values(|i: xml::Instruction| instruction_text(i)),
        None => Seq::<Seq<char>>::empty(),
    }
}

/// Copies of the strings, in order.
fn clone_strings(v: &Vec<String>) -> (r: Vec<String>)
    ensures
        strings(r@) == strings(v@),
{
    let mut r: Vec<String> = Vec::new();
    let mut i: usize = 0;
    while i < v.len()
        invariant
            i <= v@.len(),
            r@.len() == i,
            forall|j: int| 0 <= j < i ==> #[trigger] r@[j]@ == v@[j]@,
        decreases v@.len() - i,
    {
        let s = v[i].clone();
        r.push(s);
        i = i + 1;
    }
    proof {
        assert(strings(r@) =~= strings(v@));
    }
    r
}

/// Record an intrinsic of the intrinsics document.
pub fn intrinsic_from_xml(x: &xml::Intrinsic) -> (r: Intrinsic)
    ensures
        intrinsic_of_xml(*x, r),
{
    let sequence = match x.sequence {
        Some(b) => b,
        None => false,
    };
    let cpuid = match &x.cpuid {
        Some(v) => clone_strings(v),
        None => Vec::new(),
    };
    let mut instructions: Vec<String> = Vec::new();
    match &x.instruction {
        Some(v) => {
            let mut i: usize = 0;
            while i < v.len()
                invariant
                    i <= v@.len(),
                    instructions@.len() == i,
                    forall|j: int| 0 <= j < i ==> #[trigger] instructions@[j]@ == instruction_text(v@[j]),
                decreases v@.len() - i,
            {
                let mut t = v[i].name.clone();
                t.append(" ");
                match &v[i].form {
                    Some(f) => t.append(f.as_str()),
                    None => {},
                }
                instructions.push(t);
                proof {
                    assert(t@ =~= instruction_text(v@[i as int]));
                }
                i = i + 1;
            }
            proof {
                assert(strings(instructions@) =~= v@.map_values(
                    |i: xml::Instruction| instruction_text(i),
                ));
            }
        },
        None => {
            proof {
                assert(strings(instructions@) =~= Seq::<Seq<char>>::empty());
            }
        },
    }
    proof {
        if x.cpuid is None {
            assert(strings(cpuid@) =~= Seq::<Seq<char>>::empty());
        }
    }
    Intrinsic { name: x.name.clone(), sequence, cpuid, instructions }
}

/// Whether `feature` is allowed for the AVX2 back end: `SSE2` (inherent to
/// x86-64) or, lower-cased, one of the required features.
pub open spec fn feature_allowed(feature: Seq<char>) -> bool {
    feature == "SSE2"@ || required_features().contains(lowercase(feature))
}

/// Whether a lower-cased feature is one of the required features.
fn is_required_feature(f: &str) -> (r: bool)
    ensures
        r == required_features().contains(f@),
{
    let list = required_feature_list();
    let mut i: usize = 0;
    while i < list.len()
        invariant
            i <= list@.len(),
            list@.map_values(|s: &'static str| s@) == required_features(),
            forall|j: int| 0 <= j < i ==> required_features()[j] != f@,
        decreases list@.len() - i,
    {
        if str_eq(list[i], f) {
            proof {
                assert(required_features()[i as int] == f@);
            }
            return true;
        }
        i = i + 1;
    }
    false
}

/// The index of the first CPU feature of `intrinsic` that the AVX2 back end
/// does not require (so that using the intrinsic would be wrong), if any.
pub fn first_unsupported_feature(intrinsic: &Intrinsic) -> (r: Option<usize>)
    ensures
        r is None ==> forall|j: int|
            0 <= j < intrinsic.cpuid@.len() ==> feature_allowed(#[trigger] intrinsic.cpuid@[j]@),
        r matches Some(j) ==> j < intrinsic.cpuid@.len() && !feature_allowed(
            intrinsic.cpuid@[j as int]@,
        ) && forall|k: int| 0 <= k < j ==> feature_allowed(#[trigger] intrinsic.cpuid@[k]@),
{
    let mut i: usize = 0;
    while i < intrinsic.cpuid.len()
        invariant
            i <= intrinsic.cpuid@.len(),
            forall|k: int| 0 <= k < i ==> feature_allowed(#[trigger] intrinsic.cpuid@[k]@),
        decreases intrinsic.cpuid@.len() - i,
    {
        let f = intrinsic.cpuid[i].as_str();
        proof {
            reveal_strlit("SSE2");
        }
        if !str_eq(f, "SSE2") {
            let l = str_to_lowercase(f);
            if !is_required_feature(l.as_str()) {
                return Some(i);
            }
        }
        i = i + 1;
    }
    None
}

/// The address of Intel's intrinsics guide, to which an intrinsic's name is
/// appended.
pub open spec fn intrinsics_base_url() -> Seq<char> {
    "https://software.intel.com/sites/landingpage/IntrinsicsGuide/#text="@
}

/// The documentation lines of an intrinsic's instructions.
pub open spec fn instruction_lines(insns: Seq<Seq<char>>) -> Seq<char>
    decreases insns.len(),
{
    if insns.len() == 0 {
        Seq::empty()
    } else {
        instruction_lines(insns.drop_last()) + "    - `"@ + insns.last() + "`\n"@
    }
}

/// The documentation of one intrinsic: a link to the guide, whether it is
/// an instruction sequence, and its instructions.
pub open spec fn intrinsic_doc(i: Intrinsic) -> Seq<char> {
    "* [`"@ + i.name@ + "`]("@ + intrinsics_base_url() + i.name@ + ")\n"@ + (if i.sequence {
        "    - Instruction sequence\n"@
    } else {
        Seq::empty()
    }) + instruction_lines(strings(i.instructions@))
}

/// The documentation of several intrinsics, in order.
pub open spec fn intrinsic_docs(is: Seq<Intrinsic>) -> Seq<char>
    decreases is.len(),
{
    if is.len() == 0 {
        Seq::empty()
    } else {
        intrinsic_docs(is.drop_last()) + intrinsic_doc(is.last())
    }
}

/// The documentation of the intrinsics a generated function uses: nothing
/// when there are none, otherwise a heading and each intrinsic's
/// documentation.
pub open spec fn intrinsics_used_docs(is: Seq<Intrinsic>) -> Seq<char> {
    if is.len() == 0 {
        Seq::empty()
    } else {
        "# AVX2 Intrinsics Used\n\n"@ + intrinsic_docs(is)
    }
}

/// Append the documentation of one intrinsic to `out`.
fn push_intrinsic_doc(out: &mut String, i: &Intrinsic)
    ensures
        final(out)@ == old(out)@ + intrinsic_doc(*i),
{
    out.append("* [`");
    out.append(i.name.as_str());
    out.append("`](");
    out.append("https://software.intel.com/sites/landingpage/IntrinsicsGuide/#text=");
    out.append(i.name.as_str());
    out.append(")\n");
    if i.sequence {
        out.append("    - Instruction sequence\n");
    }
    let ghost start = out@;
    let mut k: usize = 0;
    while k < i.instructions.len()
        invariant
            k <= i.instructions@.len(),
            out@ == start + instruction_lines(strings(i.instructions@).take(k as int)),
        decreases i.instructions@.len() - k,
    {
        out.append("    - `");
        out.append(i.instructions[k].as_str());
        out.append("`\n");
        proof {
            let s = strings(i.instructions@);
            assert(s.take(k + 1).drop_last() =~= s.take(k as int));
            assert(out@ =~= start + instruction_lines(s.take(k + 1)));
        }
        k = k + 1;
    }
    proof {
        let s = strings(i.instructions@);
        assert(s.take(s.len() as int) =~= s);
        assert(out@ =~= old(out)@ + intrinsic_doc(*i));
    }
}

/// `a` comes before `b` in the order of `String`: character by character,
/// a proper prefix first (UTF-8 keeps the order of code points).
pub open spec fn chars_lt(a: Seq<char>, b: Seq<char>) -> bool
    decreases a.len(),
{
    if b.len() == 0 {
        false
    } else if a.len() == 0 {
        true
    } else if a[0] != b[0] {
        a[0] < b[0]
    } else {
        chars_lt(a.drop_first(), b.drop_first())
    }
}

/// No string comes before itself.
proof fn lemma_chars_lt_irreflexive(a: Seq<char>)
    ensures
        !chars_lt(a, a),
    decreases a.len(),
{
    if a.len() > 0 {
        lemma_chars_lt_irreflexive(a.drop_first());
    }
}

/// Of two different strings, one comes first.
proof fn lemma_chars_lt_total(a: Seq<char>, b: Seq<char>)
    requires
        a != b,
    ensures
        chars_lt(a, b) || chars_lt(b, a),
    decreases a.len(),
{
    if a.len() > 0 && b.len() > 0 && a[0] == b[0] {
        if a.drop_first() == b.drop_first() {
            assert(a.drop_first().len() == b.drop_first().len());
            assert(a.len() == b.len());
            assert forall|i: int| 0 <= i < a.len() implies a[i] == b[i] by {
                if i > 0 {
                    assert(a[i] == a.drop_first()[i - 1]);
                    assert(b[i] == b.drop_first()[i - 1]);
                }
            }
            assert(a =~= b);
        }
        lemma_chars_lt_total(a.drop_first(), b.drop_first());
    } else if a.len() == 0 && b.len() == 0 {
        assert(a =~= b);
    }
}

/// The order is transitive.
proof fn lemma_chars_lt_transitive(a: Seq<char>, b: Seq<char>, c: Seq<char>)
    requires
        chars_lt(a, b),
        chars_lt(b, c),
    ensures
        chars_lt(a, c),
    decreases a.len(),
{
    if a.len() > 0 && a[0] == b[0] && b[0] == c[0] {
        lemma_chars_lt_transitive(a.drop_first(), b.drop_first(), c.drop_first());
    }
}

/// Whether `a` comes before `b` in the order of `String`.
pub fn str_lt(a: &str, b: &str) -> (r: bool)
    ensures
        r == chars_lt(a@, b@),
{
    let na = a.unicode_len();
    let nb = b.unicode_len();
    let mut i: usize = 0;
    proof {
        assert(a@.skip(0) =~= a@);
        assert(b@.skip(0) =~= b@);
    }
    loop
        invariant
            na == a@.len(),
            nb == b@.len(),
            i <= na,
            i <= nb,
            chars_lt(a@, b@) == chars_lt(a@.skip(i as int), b@.skip(i as int)),
        decreases na - i,
    {
        if i == na || i == nb {
            return i == na && i < nb;
        }
        let ca = a.get_char(i);
        let cb = b.get_char(i);
        proof {
            assert(a@.skip(i as int)[0] == ca);
            assert(b@.skip(i as int)[0] == cb);
        }
        if ca != cb {
            return ca < cb;
        }
        proof {
            assert(a@.skip(i as int).drop_first() =~= a@.skip(i + 1));
            assert(b@.skip(i as int).drop_first() =~= b@.skip(i + 1));
        }
        i = i + 1;
    }
}

/// The index of the intrinsic named `name`, if any. When the document lists
/// a name more than once the last entry counts, as when the entries are
/// put in a map by name one after the other.
pub fn find_intrinsic(intrinsics: &[Intrinsic], name: &str) -> (r: Option<usize>)
    ensures
        r is None ==> forall|k: int|
            0 <= k < intrinsics@.len() ==> (#[trigger] intrinsics@[k]).name@ != name@,
        r matches Some(k) ==> k < intrinsics@.len() && intrinsics@[k as int].name@ == name@
            && forall|j: int| k < j < intrinsics@.len() ==> (#[trigger] intrinsics@[j]).name@ != name@,
{
    let mut k: usize = intrinsics.len();
    while k > 0
        invariant
            k <= intrinsics@.len(),
            forall|j: int| k <= j < intrinsics@.len() ==> (#[trigger] intrinsics@[j]).name@ != name@,
        decreases k,
    {
        if str_eq(intrinsics[k - 1].name.as_str(), name) {
            return Some(k - 1);
        }
        k = k - 1;
    }
    None
}

/// Whether the intrinsics are in strictly increasing order of name (so
/// that each name occurs once).
pub open spec fn names_sorted(s: Seq<Intrinsic>) -> bool {
    forall|i: int, j: int| 0 <= i < j < s.len() ==> chars_lt(#[trigger] s[i].name@, #[trigger] s[j].name@)
}

/// The intrinsics that a generated function uses, each once, in order of
/// name.
pub struct IntrinsicsUsed<'a> {
    used: Vec<&'a Intrinsic>,
}

impl<'a> IntrinsicsUsed<'a> {
    /// The intrinsics recorded, in order.
    pub closed spec fn spec_used(&self) -> Seq<Intrinsic> {
        self.used@.map_values(|r: &Intrinsic| *r)
    }

    /// No intrinsic recorded yet.
    pub fn new() -> (u: Self)
        ensures
            u.spec_used() == Seq::<Intrinsic>::empty(),
    {
        let u = IntrinsicsUsed { used: Vec::new() };
        proof {
            assert(u.spec_used() =~= Seq::<Intrinsic>::empty());
        }
        u
    }

    /// Record that `i` is used. An intrinsic of a name already recorded is
    /// not recorded again; otherwise `i` goes where its name belongs in the
    /// order. All of its CPU features must be allowed.
    pub fn record(&mut self, i: &'a Intrinsic)
        requires
            names_sorted(old(self).spec_used()),
            forall|j: int| 0 <= j < i.cpuid@.len() ==> feature_allowed(#[trigger] i.cpuid@[j]@),
        ensures
            names_sorted(final(self).spec_used()),
            (exists|k: int|
                0 <= k < old(self).spec_used().len() && (#[trigger] old(self).spec_used()[k]).name@
                    == i.name@) ==> final(self).spec_used() == old(self).spec_used(),
            !(exists|k: int|
                0 <= k < old(self).spec_used().len() && (#[trigger] old(self).spec_used()[k]).name@
                    == i.name@) ==> exists|p: int|
                0 <= p <= old(self).spec_used().len() && final(self).spec_used() == old(
                    self,
                ).spec_used().insert(p, *i),
    {
        let ghost s = self.spec_used();
        let n = self.used.len();
        let mut p: usize = 0;
        loop
            invariant_except_break
                p <= n,
            invariant
                n == self.used@.len(),
                s == self.spec_used(),
                forall|k: int| 0 <= k < p ==> chars_lt(#[trigger] s[k].name@, i.name@),
            ensures
                p <= n,
                p < n ==> !chars_lt(s[p as int].name@, i.name@),
            decreases n - p,
        {
            if p >= n {
                break;
            }
            if !str_lt(self.used[p].name.as_str(), i.name.as_str()) {
                break;
            }
            p = p + 1;
        }
        if p < n && str_eq(self.used[p].name.as_str(), i.name.as_str()) {
            return;
        }
        proof {
            assert forall|k: int| 0 <= k < s.len() implies (#[trigger] s[k]).name@ != i.name@ by {
                if k < p {
                    lemma_chars_lt_irreflexive(i.name@);
                } else {
                    lemma_chars_lt_total(s[p as int].name@, i.name@);
                    if k > p {
                        lemma_chars_lt_transitive(i.name@, s[p as int].name@, s[k].name@);
                        lemma_chars_lt_irreflexive(i.name@);
                    }
                }
            }
        }
        self.used.insert(p, i);
        proof {
            let t = self.spec_used();
            assert(t =~= s.insert(p as int, *i));
            assert forall|a: int, b: int| 0 <= a < b < t.len() implies chars_lt(
                #[trigger] t[a].name@,
                #[trigger] t[b].name@,
            ) by {
                if b < p {
                } else if b == p {
                } else if a < p {
                    assert(t[b] == s[b - 1]);
                    if b - 1 > p {
                        lemma_chars_lt_total(s[p as int].name@, i.name@);
                        lemma_chars_lt_transitive(i.name@, s[p as int].name@, s[b - 1].name@);
                    } else {
                        lemma_chars_lt_total(s[p as int].name@, i.name@);
                    }
                    lemma_chars_lt_transitive(s[a].name@, i.name@, s[b - 1].name@);
                } else if a == p {
                    assert(t[b] == s[b - 1]);
                    lemma_chars_lt_total(s[p as int].name@, i.name@);
                    if b - 1 > p {
                        lemma_chars_lt_transitive(i.name@, s[p as int].name@, s[b - 1].name@);
                    }
                } else {
                    assert(t[a] == s[a - 1]);
                    assert(t[b] == s[b - 1]);
                }
            }
        }
    }

    /// The documentation of the intrinsics recorded, in order.
    pub fn docs(&self) -> (s: String)
        ensures
            s@ == intrinsics_used_docs(self.spec_used()),
    {
        let n = self.used.len();
        if n == 0 {
            return String::new();
        }
        let ghost u = self.spec_used();
        let mut out = String::from_str("# AVX2 Intrinsics Used\n\n");
        let mut k: usize = 0;
        while k < n
            invariant
                n == self.used@.len(),
                u == self.spec_used(),
                k <= n,
                out@ == "# AVX2 Intrinsics Used\n\n"@ + intrinsic_docs(u.take(k as int)),
            decreases n - k,
        {
            push_intrinsic_doc(&mut out, self.used[k]);
            proof {
                assert(u.take(k + 1).drop_last() =~= u.take(k as int));
                assert(out@ =~= "# AVX2 Intrinsics Used\n\n"@ + intrinsic_docs(u.take(k + 1)));
            }
            k = k + 1;
        }
        proof {
            assert(u.take(n as int) =~= u);
        }
        out
    }
}

/// One step of AES key expansion: round key `index` is made from round key
/// `base` (shifted and XORed with itself, word by word) XORed with lane
/// `lane` of `aeskeygenassist` applied, with round constant `constant`, to
/// round key `assist`.
#[derive(Clone, Copy, Debug, PartialEq, Eq, Structural)]
pub struct KeyStep {
    /// The round key made.
    pub index: usize,
    /// The round key it starts from.
    pub base: usize,
    /// The round key `aeskeygenassist` is applied to.
    pub assist: usize,
    /// The round constant given to `aeskeygenassist`.
    pub constant: u8,
    /// The lane of the `aeskeygenassist` result broadcast to all lanes.
    pub lane: u8,
}

/// The round constants of AES-128 key expansion.
pub open spec fn aes128_round_constants() -> Seq<u8> {
    seq![0x01u8, 0x02, 0x04, 0x08, 0x10, 0x20, 0x40, 0x80, 0x1B, 0x36]
}

/// The round constants of the even steps of AES-256 key expansion.
pub open spec fn aes256_round_constants() -> Seq<u8> {
    seq![0x01u8, 0x02, 0x04, 0x08, 0x10, 0x20, 0x40]
}

/// How many round keys are taken from the key itself: one for AES-128,
/// two for AES-256.
pub open spec fn keys_from_key(size: AesSize) -> nat {
    match size {
        AesSize::Aes128 => 1,
        AesSize::Aes256 => 2,
    }
}

/// The step that makes round key `i` (from the first one not taken from
/// the key on). AES-128: from key `i - 1`, with the `i`-th round constant
/// and lane 3. AES-256, even `i`: from key `i - 2`, assisted by key `i - 1`
/// with round constant `i / 2` and lane 3; odd `i`: from key `i - 2`,
/// assisted by key `i - 1` with constant 0 and lane 2.
pub open spec fn key_step_of(size: AesSize, i: int) -> KeyStep {
    match size {
        AesSize::Aes128 => KeyStep {
            index: i as usize,
            base: (i - 1) as usize,
            assist: (i - 1) as usize,
            constant: aes128_round_constants()[i - 1],
            lane: 3,
        },
        AesSize::Aes256 => if i % 2 == 0 {
            KeyStep {
                index: i as usize,
                base: (i - 2) as usize,
                assist: (i - 1) as usize,
                constant: aes256_round_constants()[(i - 2) / 2],
                lane: 3,
            }
        } else {
            KeyStep {
                index: i as usize,
                base: (i - 2) as usize,
                assist: (i - 1) as usize,
                constant: 0,
                lane: 2,
            }
        },
    }
}

/// How a decryption round key is made: the encryption round key `index`,
/// passed through the inverse mix-columns operation or not.
#[derive(Clone, Copy, Debug, PartialEq, Eq, Structural)]
pub struct DecryptKey {
    /// The encryption round key used.
    pub index: usize,
    /// Whether inverse mix-columns is applied to it.
    pub inverse_mix_columns: bool,
}

/// The plan of an AES key expansion: the number of round keys, how many
/// come from the key itself, the steps that make the others (each index
/// once, in order), and (unless encryption only) how each decryption round
/// key is made, in order.
pub struct KeySchedulePlan {
    /// The number of round keys.
    pub n_keys: usize,
    /// The number of round keys taken from the key itself.
    pub from_key: usize,
    /// The steps making round keys `from_key` to `n_keys - 1`, in order.
    pub steps: Vec<KeyStep>,
    /// The decryption round keys, in order, when decryption is needed.
    pub decrypt_keys: Option<Vec<DecryptKey>>,
}

/// The step making round key `i`, as [`key_step_of`] gives it.
fn key_step(size: AesSize, i: usize) -> (st: KeyStep)
    requires
        keys_from_key(size) <= i < aes_num_rounds(size),
    ensures
        st == key_step_of(size, i as int),
{
    match size {
        AesSize::Aes128 => {
            let rc: [u8; 10] = [0x01u8, 0x02, 0x04, 0x08, 0x10, 0x20, 0x40, 0x80, 0x1B, 0x36];
            proof {
                assert(rc@ =~= aes128_round_constants());
            }
            KeyStep { index: i, base: i - 1, assist: i - 1, constant: rc[i - 1], lane: 3 }
        },
        AesSize::Aes256 => {
            if i % 2 == 0 {
                let rc: [u8; 7] = [0x01u8, 0x02, 0x04, 0x08, 0x10, 0x20, 0x40];
                proof {
                    assert(rc@ =~= aes256_round_constants());
                }
                KeyStep { index: i, base: i - 2, assist: i - 1, constant: rc[(i - 2) / 2], lane: 3 }
            } else {
                KeyStep { index: i, base: i - 2, assist: i - 1, constant: 0, lane: 2 }
            }
        },
    }
}

/// The plan of the key expansion for `size`: decryption keys are the
/// encryption keys in reverse order, with inverse mix-columns on all but
/// the first and last encryption keys.
pub fn key_schedule_plan(size: AesSize, encrypt_only: bool) -> (p: KeySchedulePlan)
    ensures
        p.n_keys == aes_num_rounds(size),
        p.from_key == keys_from_key(size),
        p.steps@.len() == p.n_keys - p.from_key,
        forall|j: int|
            0 <= j < p.steps@.len() ==> #[trigger] p.steps@[j] == key_step_of(
                size,
                p.from_key + j,
            ),
        encrypt_only ==> p.decrypt_keys is None,
        !encrypt_only ==> (p.decrypt_keys matches Some(d) && d@.len() == p.n_keys && forall|j: int|
            0 <= j < d@.len() ==> (#[trigger] d@[j]).index == p.n_keys - 1 - j
                && d@[j].inverse_mix_columns == (0 < p.n_keys - 1 - j < p.n_keys - 1)),
{
    let n = size.num_rounds();
    let from_key: usize = match size {
        AesSize::Aes128 => 1,
        AesSize::Aes256 => 2,
    };
    let mut steps: Vec<KeyStep> = Vec::new();
    let mut i: usize = from_key;
    while i < n
        invariant
            n == aes_num_rounds(size),
            from_key == keys_from_key(size),
            from_key <= i <= n,
            steps@.len() == i - from_key,
            forall|j: int|
                0 <= j < steps@.len() ==> #[trigger] steps@[j] == key_step_of(size, from_key + j),
        decreases n - i,
    {
        steps.push(key_step(size, i));
        i = i + 1;
    }
    if encrypt_only {
        return KeySchedulePlan { n_keys: n, from_key, steps, decrypt_keys: None };
    }
    let mut d: Vec<DecryptKey> = Vec::new();
    let mut j: usize = 0;
    while j < n
        invariant
            n == aes_num_rounds(size),
            j <= n,
            d@.len() == j,
            forall|k: int|
                0 <= k < j ==> (#[trigger] d@[k]).index == n - 1 - k && d@[k].inverse_mix_columns
                    == (0 < n - 1 - k < n - 1),
        decreases n - j,
    {
        let index = n - 1 - j;
        d.push(DecryptKey { index, inverse_mix_columns: 0 < index && index < n - 1 });
        j = j + 1;
    }
    KeySchedulePlan { n_keys: n, from_key, steps, decrypt_keys: Some(d) }
}

/// One step of AES on a block, with the round key it uses.
#[derive(Clone, Copy, Debug, PartialEq, Eq, Structural)]
pub enum RoundStep {
    /// XOR with the round key.
    AddKey(usize),
    /// A normal round with the round key.
    Round(usize),
    /// The last round with the round key.
    LastRound(usize),
}

/// The steps of AES for `size`: XOR with round key 0, normal rounds with
/// keys 1 to `n - 2` in order, and the last round with key `n - 1`, where
/// `n` is the number of round keys.
pub fn aes_round_plan(size: AesSize) -> (p: Vec<RoundStep>)
    ensures
        p@.len() == aes_num_rounds(size),
        p@[0] == RoundStep::AddKey(0),
        forall|i: int| 1 <= i < p@.len() - 1 ==> #[trigger] p@[i] == RoundStep::Round(i as usize),
        p@[p@.len() - 1] == RoundStep::LastRound((aes_num_rounds(size) - 1) as usize),
{
    let n = size.num_rounds();
    let mut p: Vec<RoundStep> = Vec::new();
    p.push(RoundStep::AddKey(0));
    let mut r: usize = 1;
    while r < n - 1
        invariant
            n == aes_num_rounds(size),
            1 <= r <= n - 1,
            p@.len() == r,
            p@[0] == RoundStep::AddKey(0),
            forall|i: int| 1 <= i < r ==> #[trigger] p@[i] == RoundStep::Round(i as usize),
        decreases n - 1 - r,
    {
        p.push(RoundStep::Round(r));
        r = r + 1;
    }
    p.push(RoundStep::LastRound(n - 1));
    p
}

/// Doubling in AES's field GF(2^8): shift left one bit and, when the top
/// bit falls off, reduce by the AES polynomial (XOR with `0x1B`).
pub open spec fn xtime(b: u8) -> u8 {
    if b < 0x80 {
        (2 * b) as u8
    } else {
        ((2 * b - 256) as u8) ^ 0x1Bu8
    }
}

/// The AES round constant `k`: `1` doubled `k` times in GF(2^8).
pub open spec fn rcon(k: nat) -> u8
    decreases k,
{
    if k == 0 {
        1
    } else {
        xtime(rcon((k - 1) as nat))
    }
}

/// The first ten AES round constants.
proof fn lemma_rcon_values()
    ensures
        rcon(0) == 0x01u8,
        rcon(1) == 0x02u8,
        rcon(2) == 0x04u8,
        rcon(3) == 0x08u8,
        rcon(4) == 0x10u8,
        rcon(5) == 0x20u8,
        rcon(6) == 0x40u8,
        rcon(7) == 0x80u8,
        rcon(8) == 0x1Bu8,
        rcon(9) == 0x36u8,
{
    reveal_with_fuel(rcon, 10);
    assert(0u8 ^ 0x1Bu8 == 0x1Bu8) by (bit_vector);
}

/// Key expansion follows AES: the step making round key `i` of AES-128
/// starts from key `i - 1`, is assisted by key `i - 1` with the round
/// constant `i - 1` (of the doubling sequence) and takes lane 3; the step
/// making round key `i` of AES-256 starts from key `i - 2` and is assisted
/// by key `i - 1`, with round constant `(i - 2) / 2` and lane 3 for even
/// `i`, and constant 0 and lane 2 for odd `i`.
pub proof fn key_steps_follow_aes(size: AesSize, i: int)
    requires
        keys_from_key(size) <= i < aes_num_rounds(size),
    ensures
        key_step_of(size, i).index == i,
        size == AesSize::Aes128 ==> {
            let st = key_step_of(size, i);
            &&& st.base == i - 1
            &&& st.assist == i - 1
            &&& st.constant == rcon((i - 1) as nat)
            &&& st.lane == 3
        },
        size == AesSize::Aes256 ==> {
            let st = key_step_of(size, i);
            &&& st.base == i - 2
            &&& st.assist == i - 1
            &&& i % 2 == 0 ==> st.constant == rcon(((i - 2) / 2) as nat) && st.lane == 3
            &&& i % 2 == 1 ==> st.constant == 0 && st.lane == 2
        },
{
    lemma_rcon_values();
}

/// The AVX2 back end lets a CPU feature through exactly when it is `SSE2`
/// (inherent to x86-64) or its lower-case form is one of the features the
/// back end requires; anything else makes an intrinsic that needs it
/// refused.
pub proof fn allowed_features_are_required_ones(feature: Seq<char>)
    ensures
        feature_allowed(feature) && feature != "SSE2"@ ==> exists|k: int|
            0 <= k < required_features().len() && #[trigger] required_features()[k] == lowercase(
                feature,
            ),
        (feature == "SSE2"@ || exists|k: int|
            0 <= k < required_features().len() && #[trigger] required_features()[k] == lowercase(
                feature,
            )) ==> feature_allowed(feature),
{
    if feature_allowed(feature) && feature != "SSE2"@ {
        let k = required_features().index_of(lowercase(feature));
        assert(required_features()[k] == lowercase(feature));
    }
    if exists|k: int|
        0 <= k < required_features().len() && #[trigger] required_features()[k] == lowercase(feature)
    {
        let k = choose|k: int|
            0 <= k < required_features().len() && #[trigger] required_features()[k] == lowercase(
                feature,
            );
        assert(required_features().contains(lowercase(feature)));
    }
}

} // verus!
