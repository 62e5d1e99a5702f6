//! The update invoker's result handling: classify the external update
//! command's outcome and parse its structured output into typed records.
//!
//! The command's output contract is a JSON array of flat objects whose
//! seven members are printable-ASCII strings, named and ordered as the
//! command emits them. The grammar accepted here is exactly that shape:
//! `[` and `]` around zero or more `{...}` records separated by `,`, with
//! JSON whitespace between tokens, and string values made of printable
//! ASCII other than `"` and `\`. The spec functions below are the grammar;
//! the executable parser is proved to return precisely what they denote.

use vstd::prelude::*;

verus! {

/// The update state the command reports for one container.
#[derive(Debug, PartialEq, Eq, Structural, Clone, Copy)]
pub enum Updated {
    /// Reported as `false`: no update was applied.
    False,
    /// Reported as `pending`: an update is staged.
    Pending,
}

/// One row of the update command's structured output.
#[derive(Debug, Clone)]
pub struct UpdateRecord {
    pub unit: String,
    pub container: String,
    pub image: String,
    pub container_name: String,
    pub container_id: String,
    pub policy: String,
    pub updated: Updated,
}

/// The mathematical view of a record: each text field as the UTF-8 bytes
/// it stood for in the command's output.
#[verifier::ext_equal]
pub ghost struct RecordModel {
    pub unit: Seq<u8>,
    pub container: Seq<u8>,
    pub image: Seq<u8>,
    pub container_name: Seq<u8>,
    pub container_id: Seq<u8>,
    pub policy: Seq<u8>,
    pub updated: Updated,
}

impl View for UpdateRecord {
    type V = RecordModel;

    open spec fn view(&self) -> RecordModel {
        RecordModel {
            unit: vstd::utf8::encode_utf8(self.unit@),
            container: vstd::utf8::encode_utf8(self.container@),
            image: vstd::utf8::encode_utf8(self.image@),
            container_name: vstd::utf8::encode_utf8(self.container_name@),
            container_id: vstd::utf8::encode_utf8(self.container_id@),
            policy: vstd::utf8::encode_utf8(self.policy@),
            updated: self.updated,
        }
    }
}

/// The views of a sequence of records.
pub open spec fn view_records(v: Seq<UpdateRecord>) -> Seq<RecordModel> {
    v.map_values(|r: UpdateRecord| r@)
}

/// Why an invocation produced no records.
#[derive(Debug, PartialEq, Eq, Structural, Clone, Copy)]
pub enum InvocationError {
    /// The command could not run or exited unsuccessfully.
    ExecutionFailed,
    /// The command's output began as an array but violated its schema.
    ParseFailed,
}

/// JSON inter-token whitespace: space, tab, line feed, carriage return.
pub open spec fn is_json_ws(b: u8) -> bool {
    b == 0x20 || b == 0x09 || b == 0x0A || b == 0x0D
}

fn byte_is_ws(b: u8) -> (r: bool)
    ensures
        r == is_json_ws(b),
{
    b == 0x20 || b == 0x09 || b == 0x0A || b == 0x0D
}

/// A byte allowed inside a string literal: printable ASCII other than the
/// quote and the backslash.
pub open spec fn is_content_byte(b: u8) -> bool {
    0x20 <= b <= 0x7E && b != 0x22 && b != 0x5C
}

fn byte_is_content(b: u8) -> (r: bool)
    ensures
        r == is_content_byte(b),
{
    0x20 <= b && b <= 0x7E && b != 0x22 && b != 0x5C
}

/// The first position at or after `i` holding a byte that is not JSON
/// whitespace; `s.len()` if there is none.
pub open spec fn skip_ws(s: Seq<u8>, i: int) -> int
    decreases s.len() - i,
{
    if 0 <= i < s.len() && is_json_ws(s[i]) {
        skip_ws(s, i + 1)
    } else {
        i
    }
}

fn skip_ws_at(s: &Vec<u8>, i: usize) -> (j: usize)
    requires
        i <= s@.len(),
    ensures
        j == skip_ws(s@, i as int),
        i <= j <= s@.len(),
{
    let mut k = i;
    while k < s.len() && byte_is_ws(s[k])
        invariant
            i <= k <= s@.len(),
            skip_ws(s@, i as int) == skip_ws(s@, k as int),
        decreases s@.len() - k,
    {
        k += 1;
    }
    k
}

/// The position of the closing quote of a string literal whose content
/// starts at `i`; `s.len()` when the literal never closes or holds a byte
/// the grammar does not allow.
pub open spec fn string_end(s: Seq<u8>, i: int) -> int
    decreases s.len() - i,
{
    if 0 <= i < s.len() {
        if s[i] == 0x22 {
            i
        } else if is_content_byte(s[i]) {
            string_end(s, i + 1)
        } else {
            s.len() as int
        }
    } else {
        s.len() as int
    }
}

proof fn lemma_string_end(s: Seq<u8>, i: int)
    requires
        0 <= i <= s.len(),
    ensures
        i <= string_end(s, i) <= s.len(),
        string_end(s, i) < s.len() ==> s[string_end(s, i)] == 0x22,
        string_end(s, i) < s.len() ==> forall|j: int|
            i <= j < string_end(s, i) ==> is_content_byte(s[j]),
    decreases s.len() - i,
{
    if i < s.len() && s[i] != 0x22 && is_content_byte(s[i]) {
        lemma_string_end(s, i + 1);
    }
}

fn scan_string_end(s: &Vec<u8>, i: usize) -> (e: usize)
    requires
        i <= s@.len(),
    ensures
        e == string_end(s@, i as int),
        i <= e <= s@.len(),
{
    let mut k = i;
    loop
        invariant
            i <= k <= s@.len(),
            string_end(s@, i as int) == string_end(s@, k as int),
        decreases s@.len() - k,
    {
        if k == s.len() {
            return k;
        }
        if s[k] == 0x22 {
            return k;
        }
        if !byte_is_content(s[k]) {
            return s.len();
        }
        k += 1;
    }
}

/// A string literal at `i`: its content bytes and the position after the
/// closing quote.
pub open spec fn parse_string(s: Seq<u8>, i: int) -> Option<(Seq<u8>, int)> {
    if 0 <= i < s.len() && s[i] == 0x22 {
        let e = string_end(s, i + 1);
        if e < s.len() {
            Option::Some((s.subrange(i + 1, e), e + 1))
        } else {
            Option::None
        }
    } else {
        Option::None
    }
}

fn parse_string_at(s: &Vec<u8>, i: usize) -> (r: Option<(Vec<u8>, usize)>)
    requires
        i <= s@.len(),
    ensures
        r is Some <==> parse_string(s@, i as int) is Some,
        r matches Option::Some((v, p)) ==> parse_string(s@, i as int) == Option::Some(
            (v@, p as int),
        ) && p <= s@.len() && (forall|j: int| 0 <= j < v@.len() ==> is_content_byte(v@[j])),
{
    if i >= s.len() || s[i] != 0x22 {
        return Option::None;
    }
    let e = scan_string_end(s, i + 1);
    proof {
        lemma_string_end(s@, i as int + 1);
    }
    if e >= s.len() {
        return Option::None;
    }
    let mut v: Vec<u8> = Vec::new();
    let mut k = i + 1;
    while k < e
        invariant
            i + 1 <= k <= e,
            e < s@.len(),
            e == string_end(s@, i as int + 1),
            v@ == s@.subrange(i as int + 1, k as int),
        decreases e - k,
    {
        v.push(s[k]);
        proof {
            assert(s@.subrange(i as int + 1, k as int + 1) =~= s@.subrange(
                i as int + 1,
                k as int,
            ).push(s@[k as int]));
        }
        k += 1;
    }
    Option::Some((v, e + 1))
}

/// The position after `b` when, skipping whitespace from `i`, the next
/// byte is `b`.
pub open spec fn expect_byte(s: Seq<u8>, i: int, b: u8) -> Option<int> {
    let j = skip_ws(s, i);
    if j < s.len() && s[j] == b {
        Option::Some(j + 1)
    } else {
        Option::None
    }
}

fn expect_byte_at(s: &Vec<u8>, i: usize, b: u8) -> (r: Option<usize>)
    requires
        i <= s@.len(),
    ensures
        r is Some <==> expect_byte(s@, i as int, b) is Some,
        r matches Option::Some(p) ==> expect_byte(s@, i as int, b) == Option::Some(p as int) && p
            <= s@.len(),
{
    let j = skip_ws_at(s, i);
    if j < s.len() && s[j] == b {
        Option::Some(j + 1)
    } else {
        Option::None
    }
}

/// Whether two byte vectors hold the same bytes.
fn bytes_eq(a: &Vec<u8>, b: &Vec<u8>) -> (r: bool)
    ensures
        r == (a@ == b@),
{
    if a.len() != b.len() {
        assert(a@ != b@);
        return false;
    }
    let mut i: usize = 0;
    while i < a.len()
        invariant
            0 <= i <= a@.len(),
            a@.len() == b@.len(),
            forall|j: int| 0 <= j < i ==> a@[j] == b@[j],
        decreases a@.len() - i,
    {
        if a[i] != b[i] {
            return false;
        }
        i += 1;
    }
    proof {
        assert(a@ =~= b@);
    }
    true
}

/// A member `"key" : "value"` starting at `i`, for this exact key: the
/// value's content bytes and the position after its closing quote.
pub open spec fn parse_member(s: Seq<u8>, i: int, key: Seq<u8>) -> Option<(Seq<u8>, int)> {
    match parse_string(s, skip_ws(s, i)) {
        Option::None => Option::None,
        Option::Some((k, j)) => if k == key {
            match expect_byte(s, j, 0x3A) {
                Option::None => Option::None,
                Option::Some(j2) => parse_string(s, skip_ws(s, j2)),
            }
        } else {
            Option::None
        },
    }
}

fn parse_member_at(s: &Vec<u8>, i: usize, key: &Vec<u8>) -> (r: Option<(Vec<u8>, usize)>)
    requires
        i <= s@.len(),
    ensures
        r is Some <==> parse_member(s@, i as int, key@) is Some,
        r matches Option::Some((v, p)) ==> parse_member(s@, i as int, key@) == Option::Some(
            (v@, p as int),
        ) && p <= s@.len() && (forall|j: int| 0 <= j < v@.len() ==> is_content_byte(v@[j])),
{
    let j0 = skip_ws_at(s, i);
    let (k, j) = match parse_string_at(s, j0) {
        Option::None => {
            return Option::None;
        },
        Option::Some(t) => t,
    };
    if !bytes_eq(&k, key) {
        return Option::None;
    }
    let j2 = match expect_byte_at(s, j, 0x3A) {
        Option::None => {
            return Option::None;
        },
        Option::Some(t) => t,
    };
    let j3 = skip_ws_at(s, j2);
    parse_string_at(s, j3)
}

/// The bytes of the member name `Unit`.
pub open spec fn key_unit() -> Seq<u8> {
    seq![0x55u8, 0x6Eu8, 0x69u8, 0x74u8]
}

/// The bytes of the member name `Container`.
pub open spec fn key_container() -> Seq<u8> {
    seq![0x43u8, 0x6Fu8, 0x6Eu8, 0x74u8, 0x61u8, 0x69u8, 0x6Eu8, 0x65u8, 0x72u8]
}

/// The bytes of the member name `Image`.
pub open spec fn key_image() -> Seq<u8> {
    seq![0x49u8, 0x6Du8, 0x61u8, 0x67u8, 0x65u8]
}

/// The bytes of the member name `ContainerName`.
pub open spec fn key_container_name() -> Seq<u8> {
    key_container() + seq![0x4Eu8, 0x61u8, 0x6Du8, 0x65u8]
}

/// The bytes of the member name `ContainerID`.
pub open spec fn key_container_id() -> Seq<u8> {
    key_container() + seq![0x49u8, 0x44u8]
}

/// The bytes of the member name `Policy`.
pub open spec fn key_policy() -> Seq<u8> {
    seq![0x50u8, 0x6Fu8, 0x6Cu8, 0x69u8, 0x63u8, 0x79u8]
}

/// The bytes of the member name `Updated`.
pub open spec fn key_updated() -> Seq<u8> {
    seq![0x55u8, 0x70u8, 0x64u8, 0x61u8, 0x74u8, 0x65u8, 0x64u8]
}

/// The bytes of the state value `false`.
pub open spec fn lit_false() -> Seq<u8> {
    seq![0x66u8, 0x61u8, 0x6Cu8, 0x73u8, 0x65u8]
}

/// The bytes of the state value `pending`.
pub open spec fn lit_pending() -> Seq<u8> {
    seq![0x70u8, 0x65u8, 0x6Eu8, 0x64u8, 0x69u8, 0x6Eu8, 0x67u8]
}

/// The update state a value's bytes denote, if any.
pub open spec fn updated_of(v: Seq<u8>) -> Option<Updated> {
    if v == lit_false() {
        Option::Some(Updated::False)
    } else if v == lit_pending() {
        Option::Some(Updated::Pending)
    } else {
        Option::None
    }
}

/// A member for `key` after a `,` at `i`.
pub open spec fn parse_next_member(s: Seq<u8>, i: int, key: Seq<u8>) -> Option<(Seq<u8>, int)> {
    match expect_byte(s, i, 0x2C) {
        Option::None => Option::None,
        Option::Some(j) => parse_member(s, j, key),
    }
}

/// One record object at `i`: `{` then the seven members in emission order,
/// separated by `,`, then `}`. Yields the record and the position after
/// `}`.
pub open spec fn parse_record(s: Seq<u8>, i: int) -> Option<(RecordModel, int)> {
    match expect_byte(s, i, 0x7B) {
        Option::None => Option::None,
        Option::Some(j) => match parse_member(s, j, key_unit()) {
            Option::None => Option::None,
            Option::Some((unit, p1)) => match parse_next_member(s, p1, key_container()) {
                Option::None => Option::None,
                Option::Some((container, p2)) => match parse_next_member(s, p2, key_image()) {
                    Option::None => Option::None,
                    Option::Some((image, p3)) => match parse_next_member(
                        s,
                        p3,
                        key_container_name(),
                    ) {
                        Option::None => Option::None,
                        Option::Some((container_name, p4)) => match parse_next_member(
                            s,
                            p4,
                            key_container_id(),
                        ) {
                            Option::None => Option::None,
                            Option::Some((container_id, p5)) => match parse_next_member(
                                s,
                                p5,
                                key_policy(),
                            ) {
                                Option::None => Option::None,
                                Option::Some((policy, p6)) => match parse_next_member(
                                    s,
                                    p6,
                                    key_updated(),
                                ) {
                                    Option::None => Option::None,
                                    Option::Some((upd, p7)) => match expect_byte(s, p7, 0x7D) {
                                        Option::None => Option::None,
                                        Option::Some(p8) => match updated_of(upd) {
                                            Option::None => Option::None,
                                            Option::Some(u) => Option::Some(
                                                (
                                                    RecordModel {
                                                        unit,
                                                        container,
                                                        image,
                                                        container_name,
                                                        container_id,
                                                        policy,
                                                        updated: u,
                                                    },
                                                    p8,
                                                ),
                                            ),
                                        },
                                    },
                                },
                            },
                        },
                    },
                },
            },
        },
    }
}

/// Relies on `String::from_utf8`: bytes below `0x80` are ASCII, hence
/// valid UTF-8, and the returned string's UTF-8 encoding is exactly the
/// input bytes.
#[verifier::external_body]
fn ascii_to_string(v: Vec<u8>) -> (r: String)
    requires
        forall|i: int| 0 <= i < v@.len() ==> v@[i] < 0x80,
    ensures
        vstd::utf8::encode_utf8(r@) == v@,
{
    match String::from_utf8(v) {
        Result::Ok(s) => s,
        Result::Err(_) => String::new(),
    }
}

fn parse_next_member_at(s: &Vec<u8>, i: usize, key: &Vec<u8>) -> (r: Option<(Vec<u8>, usize)>)
    requires
        i <= s@.len(),
    ensures
        r is Some <==> parse_next_member(s@, i as int, key@) is Some,
        r matches Option::Some((v, p)) ==> parse_next_member(s@, i as int, key@) == Option::Some(
            (v@, p as int),
        ) && p <= s@.len() && (forall|j: int| 0 <= j < v@.len() ==> is_content_byte(v@[j])),
{
    match expect_byte_at(s, i, 0x2C) {
        Option::None => Option::None,
        Option::Some(j) => parse_member_at(s, j, key),
    }
}

fn parse_record_at(s: &Vec<u8>, i: usize) -> (r: Option<(UpdateRecord, usize)>)
    requires
        i <= s@.len(),
    ensures
        r is Some <==> parse_record(s@, i as int) is Some,
        r matches Option::Some((rec, p)) ==> parse_record(s@, i as int) == Option::Some(
            (rec@, p as int),
        ) && p <= s@.len(),
{
    let j = match expect_byte_at(s, i, 0x7B) {
        Option::None => {
            return Option::None;
        },
        Option::Some(t) => t,
    };
    let k_unit: Vec<u8> = vec![0x55u8, 0x6Eu8, 0x69u8, 0x74u8];
    let k_container: Vec<u8> = vec![
        0x43u8,
        0x6Fu8,
        0x6Eu8,
        0x74u8,
        0x61u8,
        0x69u8,
        0x6Eu8,
        0x65u8,
        0x72u8,
    ];
    let k_image: Vec<u8> = vec![0x49u8, 0x6Du8, 0x61u8, 0x67u8, 0x65u8];
    let k_container_name: Vec<u8> = vec![
        0x43u8,
        0x6Fu8,
        0x6Eu8,
        0x74u8,
        0x61u8,
        0x69u8,
        0x6Eu8,
        0x65u8,
        0x72u8,
        0x4Eu8,
        0x61u8,
        0x6Du8,
        0x65u8,
    ];
    let k_container_id: Vec<u8> = vec![
        0x43u8,
        0x6Fu8,
        0x6Eu8,
        0x74u8,
        0x61u8,
        0x69u8,
        0x6Eu8,
        0x65u8,
        0x72u8,
        0x49u8,
        0x44u8,
    ];
    let k_policy: Vec<u8> = vec![0x50u8, 0x6Fu8, 0x6Cu8, 0x69u8, 0x63u8, 0x79u8];
    let k_updated: Vec<u8> = vec![0x55u8, 0x70u8, 0x64u8, 0x61u8, 0x74u8, 0x65u8, 0x64u8];
    proof {
        assert(k_unit@ =~= key_unit());
        assert(k_container@ =~= key_container());
        assert(k_image@ =~= key_image());
        assert(k_container_name@ =~= key_container_name());
        assert(k_container_id@ =~= key_container_id());
        assert(k_policy@ =~= key_policy());
        assert(k_updated@ =~= key_updated());
    }
    let (unit_b, p1) = match parse_member_at(s, j, &k_unit) {
        Option::None => {
            return Option::None;
        },
        Option::Some(t) => t,
    };
    let (container_b, p2) = match parse_next_member_at(s, p1, &k_container) {
        Option::None => {
            return Option::None;
        },
        Option::Some(t) => t,
    };
    let (image_b, p3) = match parse_next_member_at(s, p2, &k_image) {
        Option::None => {
            return Option::None;
        },
        Option::Some(t) => t,
    };
    let (container_name_b, p4) = match parse_next_member_at(s, p3, &k_container_name) {
        Option::None => {
            return Option::None;
        },
        Option::Some(t) => t,
    };
    let (container_id_b, p5) = match parse_next_member_at(s, p4, &k_container_id) {
        Option::None => {
            return Option::None;
        },
        Option::Some(t) => t,
    };
    let (policy_b, p6) = match parse_next_member_at(s, p5, &k_policy) {
        Option::None => {
            return Option::None;
        },
        Option::Some(t) => t,
    };
    let (upd_b, p7) = match parse_next_member_at(s, p6, &k_updated) {
        Option::None => {
            return Option::None;
        },
        Option::Some(t) => t,
    };
    let p8 = match expect_byte_at(s, p7, 0x7D) {
        Option::None => {
            return Option::None;
        },
        Option::Some(t) => t,
    };
    let lit_f: Vec<u8> = vec![0x66u8, 0x61u8, 0x6Cu8, 0x73u8, 0x65u8];
    let lit_p: Vec<u8> = vec![0x70u8, 0x65u8, 0x6Eu8, 0x64u8, 0x69u8, 0x6Eu8, 0x67u8];
    proof {
        assert(lit_f@ =~= lit_false());
        assert(lit_p@ =~= lit_pending());
    }
    let updated = if bytes_eq(&upd_b, &lit_f) {
        Updated::False
    } else if bytes_eq(&upd_b, &lit_p) {
        Updated::Pending
    } else {
        return Option::None;
    };
    let ghost m = parse_record(s@, i as int)->Some_0.0;
    let rec = UpdateRecord {
        unit: ascii_to_string(unit_b),
        container: ascii_to_string(container_b),
        image: ascii_to_string(image_b),
        container_name: ascii_to_string(container_name_b),
        container_id: ascii_to_string(container_id_b),
        policy: ascii_to_string(policy_b),
        updated,
    };
    proof {
        assert(rec@ =~= m);
    }
    Option::Some((rec, p8))
}

/// The records of `record (,"record")* ]` starting at `i`, and the
/// position after the closing `]`. The fuel bounds the recursion; the
/// input's length is always enough, since every record occupies at least
/// one byte.
pub open spec fn parse_items(s: Seq<u8>, i: int, fuel: nat) -> Option<(Seq<RecordModel>, int)>
    decreases fuel,
{
    if fuel == 0 {
        Option::None
    } else {
        match parse_record(s, i) {
            Option::None => Option::None,
            Option::Some((r, p)) => match expect_byte(s, p, 0x5D) {
                Option::Some(q) => Option::Some((seq![r], q)),
                Option::None => match expect_byte(s, p, 0x2C) {
                    Option::None => Option::None,
                    Option::Some(q) => match parse_items(s, q, (fuel - 1) as nat) {
                        Option::None => Option::None,
                        Option::Some((rest, p2)) => Option::Some((seq![r] + rest, p2)),
                    },
                },
            },
        }
    }
}

fn parse_items_at(s: &Vec<u8>, i: usize, fuel: usize) -> (r: Option<(Vec<UpdateRecord>, usize)>)
    requires
        i <= s@.len(),
    ensures
        r is Some <==> parse_items(s@, i as int, fuel as nat) is Some,
        r matches Option::Some((v, p)) ==> parse_items(s@, i as int, fuel as nat) == Option::Some(
            (view_records(v@), p as int),
        ) && p <= s@.len(),
    decreases fuel,
{
    if fuel == 0 {
        return Option::None;
    }
    let (rec, p) = match parse_record_at(s, i) {
        Option::None => {
            return Option::None;
        },
        Option::Some(t) => t,
    };
    if let Option::Some(q) = expect_byte_at(s, p, 0x5D) {
        let mut v: Vec<UpdateRecord> = Vec::new();
        v.push(rec);
        proof {
            assert(view_records(v@) =~= seq![rec@]);
        }
        return Option::Some((v, q));
    }
    let q = match expect_byte_at(s, p, 0x2C) {
        Option::None => {
            return Option::None;
        },
        Option::Some(t) => t,
    };
    let (mut rest, p2) = match parse_items_at(s, q, fuel - 1) {
        Option::None => {
            return Option::None;
        },
        Option::Some(t) => t,
    };
    let ghost tail = rest@;
    rest.insert(0, rec);
    proof {
        assert(view_records(rest@) =~= seq![rec@] + view_records(tail));
    }
    Option::Some((rest, p2))
}

/// The records an entire output text denotes: the whole text is one array
/// with nothing but whitespace after it, or nothing at all.
pub open spec fn parse_updates(s: Seq<u8>) -> Option<Seq<RecordModel>> {
    match expect_byte(s, 0, 0x5B) {
        Option::None => Option::None,
        Option::Some(j) => match expect_byte(s, j, 0x5D) {
            Option::Some(q) => if skip_ws(s, q) == s.len() {
                Option::Some(Seq::empty())
            } else {
                Option::None
            },
            Option::None => match parse_items(s, j, s.len()) {
                Option::None => Option::None,
                Option::Some((rs, p)) => if skip_ws(s, p) == s.len() {
                    Option::Some(rs)
                } else {
                    Option::None
                },
            },
        },
    }
}

/// Parse a full output text as the array of records it denotes.
pub fn parse_updates_text(s: &Vec<u8>) -> (r: Option<Vec<UpdateRecord>>)
    ensures
        r is Some <==> parse_updates(s@) is Some,
        r matches Option::Some(v) ==> parse_updates(s@) == Option::Some(view_records(v@)),
{
    let j = match expect_byte_at(s, 0, 0x5B) {
        Option::None => {
            return Option::None;
        },
        Option::Some(t) => t,
    };
    if let Option::Some(q) = expect_byte_at(s, j, 0x5D) {
        let t = skip_ws_at(s, q);
        if t == s.len() {
            let v: Vec<UpdateRecord> = Vec::new();
            proof {
                assert(view_records(v@) =~= Seq::<RecordModel>::empty());
            }
            return Option::Some(v);
        } else {
            return Option::None;
        }
    }
    let (rs, p) = match parse_items_at(s, j, s.len()) {
        Option::None => {
            return Option::None;
        },
        Option::Some(t) => t,
    };
    let t = skip_ws_at(s, p);
    if t == s.len() {
        Option::Some(rs)
    } else {
        Option::None
    }
}

/// What an invocation's captured outcome denotes: a failed run is an
/// execution failure; a clean exit whose output does not open as an array
/// means no updates; an array that violates the schema is a parse
/// failure; otherwise the records the output denotes.
pub open spec fn classify_spec(exit_ok: bool, out: Seq<u8>) -> Result<
    Seq<RecordModel>,
    InvocationError,
> {
    if !exit_ok {
        Result::Err(InvocationError::ExecutionFailed)
    } else if out.len() == 0 || out[0] != 0x5B {
        Result::Ok(Seq::empty())
    } else {
        match parse_updates(out) {
            Option::Some(rs) => Result::Ok(rs),
            Option::None => Result::Err(InvocationError::ParseFailed),
        }
    }
}

/// Classify the update command's captured outcome: `exit_ok` says whether
/// it ran and exited successfully, `stdout` is its captured output.
pub fn classify_output(exit_ok: bool, stdout: &Vec<u8>) -> (r: Result<
    Vec<UpdateRecord>,
    InvocationError,
>)
    ensures
        r is Ok <==> classify_spec(exit_ok, stdout@) is Ok,
        r matches Result::Ok(v) ==> classify_spec(exit_ok, stdout@) == Result::<
            Seq<RecordModel>,
            InvocationError,
        >::Ok(view_records(v@)),
        r matches Result::Err(e) ==> classify_spec(exit_ok, stdout@) == Result::<
            Seq<RecordModel>,
            InvocationError,
        >::Err(e),
{
    if !exit_ok {
        return Result::Err(InvocationError::ExecutionFailed);
    }
    if stdout.len() == 0 || stdout[0] != 0x5B {
        let v: Vec<UpdateRecord> = Vec::new();
        proof {
            assert(view_records(v@) =~= Seq::<RecordModel>::empty());
        }
        return Result::Ok(v);
    }
    match parse_updates_text(stdout) {
        Option::Some(v) => Result::Ok(v),
        Option::None => Result::Err(InvocationError::ParseFailed),
    }
}

} // verus!
