//! The decisions of a JSON diagnostic session: which ECU variant it runs as,
//! security access, service requests and trouble codes.
use vstd::prelude::*;
use vstd::string::StringExecFns;
use vstd::utf8::encode_utf8;
use crate::manual::{server_type_text, DiagMessageTrait};
use crate::schema::{ConType, Connection, ECUVariantDefinition, OvdECU, ServerType, ECUDTC};
use crate::selector::{
    fresh_selector_for, selector_wf, service_selector_for_variant, SelectorAction, SelectorMsg, SelectorView, ServiceRef,
    ServiceSelector, spec_selector_update, is_valid_pick, current_list,
};
use crate::schema::same_service;
use crate::session::{SessionError, TargetPage};
use crate::text::{
    decimal, hex_decode, hex_encode_upper, hex_fixed, push_decimal, push_hex_fixed, spec_hex_decode,
    upper_hex,
};

verus! {

/// An entry of the variant picker: the variant's position and its label.
#[derive(Clone, Debug, PartialEq, Eq)]
pub struct VariantChoice {
    index: usize,
    label: String,
}

impl VariantChoice {
    pub closed spec fn spec_index(&self) -> usize {
        self.index
    }

    pub closed spec fn spec_label(&self) -> Seq<char> {
        self.label@
    }

    /// The position of the variant.
    pub fn index(&self) -> (r: usize)
        ensures
            r == self.spec_index(),
    {
        self.index
    }

    /// The label shown in the picker.
    pub fn to_string(&self) -> (r: String)
        ensures
            r@ == self.spec_label(),
    {
        self.label.clone()
    }
}

/// The label of a variant: its name and its description.
pub open spec fn variant_label(v: ECUVariantDefinition) -> Seq<char> {
    v.name@ + " - "@ + v.description@
}

/// The picker entries of a list of variants: one per variant, in order.
pub open spec fn variant_options_of(r: Seq<VariantChoice>, variants: Seq<ECUVariantDefinition>) -> bool {
    &&& r.len() == variants.len()
    &&& forall|i: int|
        0 <= i < r.len() ==> (#[trigger] r[i]).spec_index() == i && r[i].spec_label()
            == variant_label(variants[i])
}

/// One picker entry per variant, in order.
pub fn variant_choices(variants: &Vec<ECUVariantDefinition>) -> (r: Vec<VariantChoice>)
    ensures
        variant_options_of(r@, variants@),
{
    let mut r: Vec<VariantChoice> = Vec::new();
    let mut i: usize = 0;
    while i < variants.len()
        invariant
            i <= variants@.len(),
            r@.len() == i,
            forall|k: int|
                0 <= k < i ==> (#[trigger] r@[k]).spec_index() == k && r@[k].spec_label()
                    == variant_label(variants@[k]),
        decreases variants@.len() - i,
    {
        let v = &variants[i];
        let mut label = v.name.clone();
        label.append(" - ");
        label.append(v.description.as_str());
        r.push(VariantChoice { index: i, label });
        i = i + 1;
    }
    r
}

/// The variant has a pattern with this vendor identification.
pub open spec fn has_vendor_id(v: ECUVariantDefinition, id: u32) -> bool {
    exists|j: int| 0 <= j < v.patterns@.len() && (#[trigger] v.patterns@[j]).vendor_id == id
}

pub open spec fn variant_pred(id: u32) -> spec_fn(ECUVariantDefinition) -> bool {
    |v: ECUVariantDefinition| has_vendor_id(v, id)
}

pub open spec fn pattern_pred(id: u32) -> spec_fn(crate::schema::ECUVariantPattern) -> bool {
    |p: crate::schema::ECUVariantPattern| p.vendor_id == id
}

/// The first position in `s` that satisfies `p`, if any.
pub open spec fn first_index<T>(s: Seq<T>, p: spec_fn(T) -> bool) -> Option<int> {
    if exists|i: int| 0 <= i < s.len() && p(s[i]) {
        Some(
            choose|i: int|
                0 <= i < s.len() && p(s[i]) && forall|j: int| 0 <= j < i ==> !p(#[trigger] s[j]),
        )
    } else {
        None
    }
}

/// The variant a session runs as, and the pattern it is shown with: the first
/// variant with a pattern of the identified vendor id (the first variant when
/// the ECU did not identify itself or no variant matches), then its first
/// pattern of that vendor id, or else its first pattern.
pub open spec fn spec_choose_variant(variants: Seq<ECUVariantDefinition>, identified: Option<u32>) -> Result<
    (int, int),
    Seq<char>,
> {
    let vi = match identified {
        Some(id) => match first_index(variants, variant_pred(id)) {
            Some(i) => i,
            None => 0,
        },
        None => 0,
    };
    if vi >= variants.len() {
        Err("ECU has no variants"@)
    } else {
        let pats = variants[vi].patterns@;
        let pi = match identified {
            Some(id) => match first_index(pats, pattern_pred(id)) {
                Some(j) => j,
                None => 0,
            },
            None => 0,
        };
        if pi >= pats.len() {
            Err("ECU variant has no identification patterns"@)
        } else {
            Ok((vi, pi))
        }
    }
}

proof fn lemma_least_exists<T>(s: Seq<T>, p: spec_fn(T) -> bool, k: int)
    requires
        0 <= k < s.len(),
        p(s[k]),
    ensures
        exists|i: int|
            0 <= i < s.len() && p(s[i]) && forall|j: int| 0 <= j < i ==> !p(#[trigger] s[j]),
    decreases k,
{
    if exists|j: int| 0 <= j < k && p(s[j]) {
        let j = choose|j: int| 0 <= j < k && p(s[j]);
        lemma_least_exists(s, p, j);
    } else {
        assert(forall|j: int| 0 <= j < k ==> !p(#[trigger] s[j]));
    }
}

/// The first position of `s` that satisfies `p` is a position of `s` that
/// satisfies it, with none before it; there is none exactly when no
/// position satisfies `p`.
pub proof fn lemma_first_index_is_least<T>(s: Seq<T>, p: spec_fn(T) -> bool)
    ensures
        match first_index(s, p) {
            Some(i) => 0 <= i < s.len() && p(s[i]) && forall|j: int|
                0 <= j < i ==> !p(#[trigger] s[j]),
            None => forall|i: int| 0 <= i < s.len() ==> !p(#[trigger] s[i]),
        },
{
    if exists|i: int| 0 <= i < s.len() && p(s[i]) {
        let k = choose|i: int| 0 <= i < s.len() && p(s[i]);
        lemma_least_exists(s, p, k);
    }
}

proof fn lemma_first_index<T>(s: Seq<T>, p: spec_fn(T) -> bool, i: int)
    requires
        0 <= i < s.len(),
        p(s[i]),
        forall|j: int| 0 <= j < i ==> !p(#[trigger] s[j]),
    ensures
        first_index(s, p) == Some(i),
{
    let k = choose|k: int|
        0 <= k < s.len() && p(s[k]) && forall|j: int| 0 <= j < k ==> !p(#[trigger] s[j]);
    assert(0 <= k < s.len() && p(s[k]) && forall|j: int| 0 <= j < k ==> !p(#[trigger] s[j]));
    if k < i {
        assert(!p(s[k]));
    }
    if k > i {
        assert(!p(s[i]));
    }
}

fn has_vendor_id_exec(v: &ECUVariantDefinition, id: u32) -> (r: Option<usize>)
    ensures
        r matches Some(k) ==> k < v.patterns@.len() && first_index(v.patterns@, pattern_pred(id))
            == Some(k as int),
        r is None ==> first_index(v.patterns@, pattern_pred(id)) is None,
        r is Some <==> has_vendor_id(*v, id),
{
    let ghost pred = pattern_pred(id);
    let mut j: usize = 0;
    while j < v.patterns.len()
        invariant
            j <= v.patterns@.len(),
            pred == (pattern_pred(id)),
            forall|k: int| 0 <= k < j ==> !pred(#[trigger] v.patterns@[k]),
        decreases v.patterns@.len() - j,
    {
        if v.patterns[j].vendor_id == id {
            proof {
                lemma_first_index(v.patterns@, pred, j as int);
            }
            assert(has_vendor_id(*v, id)) by {
                assert(v.patterns@[j as int].vendor_id == id);
            }
            return Some(j);
        }
        j = j + 1;
    }
    assert(!has_vendor_id(*v, id)) by {
        assert forall|k: int| 0 <= k < v.patterns@.len() implies (#[trigger] v.patterns@[k]).vendor_id
            != id by {
            assert(!pred(v.patterns@[k]));
        }
    }
    None
}

/// Picks the variant and pattern a session runs as, from the vendor id the ECU
/// reported (if it reported one).
pub fn choose_variant(variants: &Vec<ECUVariantDefinition>, identified: Option<u32>) -> (r: Result<
    (usize, usize),
    SessionError,
>)
    ensures
        match spec_choose_variant(variants@, identified) {
            Ok((vi, pi)) => r matches Ok((a, b)) && a == vi && b == pi,
            Err(t) => r matches Err(SessionError::Other(s)) && s@ == t,
        },
{
    let mut vi: usize = 0;
    if let Some(id) = identified {
        let ghost pred = variant_pred(id);
        let mut i: usize = 0;
        let mut found = false;
        while i < variants.len() && !found
            invariant
                i <= variants@.len(),
                pred == (variant_pred(id)),
                !found ==> vi == 0 && forall|k: int| 0 <= k < i ==> !pred(#[trigger] variants@[k]),
                found ==> vi < variants@.len() && first_index(variants@, pred) == Some(vi as int),
            decreases variants@.len() - i,
        {
            if has_vendor_id_exec(&variants[i], id).is_some() {
                proof {
                    lemma_first_index(variants@, pred, i as int);
                }
                vi = i;
                found = true;
            }
            i = i + 1;
        }
        proof {
            if !found {
                assert(!(exists|k: int| 0 <= k < variants@.len() && pred(variants@[k])));
            }
        }
    }
    let ghost spec_vi: int = match identified {
        Some(id) => match first_index(variants@, variant_pred(id)) {
            Some(i) => i,
            None => 0,
        },
        None => 0,
    };
    assert(vi == spec_vi);
    if vi >= variants.len() {
        return Err(SessionError::Other(String::from_str("ECU has no variants")));
    }
    let variant = &variants[vi];
    assert(*variant == variants@[spec_vi]);
    let pi: usize = match identified {
        Some(id) => match has_vendor_id_exec(variant, id) {
            Some(j) => j,
            None => 0,
        },
        None => 0,
    };
    let ghost spec_pi: int = match identified {
        Some(id) => match first_index(variants@[spec_vi].patterns@, pattern_pred(id)) {
            Some(j) => j,
            None => 0,
        },
        None => 0,
    };
    assert(pi == spec_pi);
    if pi >= variant.patterns.len() {
        return Err(
            SessionError::Other(String::from_str("ECU variant has no identification patterns")),
        );
    }
    Ok((vi, pi))
}

/// What picking an entry of the variant picker does.
#[derive(Clone, Copy, Debug, PartialEq, Eq, Structural)]
pub enum VariantSwitch {
    /// No such variant: nothing happens.
    Ignore,
    /// The variant has no pattern: the choice is refused and reported.
    NoPattern,
    /// The session runs as the variant, shown with its first pattern.
    Switch,
}

/// Decides what picking the `index`-th variant does.
pub fn variant_switch(variants: &Vec<ECUVariantDefinition>, index: usize) -> (r: VariantSwitch)
    ensures
        index >= variants@.len() ==> r == VariantSwitch::Ignore,
        index < variants@.len() && variants@[index as int].patterns@.len() == 0 ==> r
            == VariantSwitch::NoPattern,
        index < variants@.len() && variants@[index as int].patterns@.len() > 0 ==> r
            == VariantSwitch::Switch,
{
    if index >= variants.len() {
        VariantSwitch::Ignore
    } else if variants[index].patterns.len() == 0 {
        VariantSwitch::NoPattern
    } else {
        VariantSwitch::Switch
    }
}

/// The message for a security level that is not one hexadecimal byte.
pub open spec fn security_level_text() -> Seq<char> {
    "Security level must be exactly one hexadecimal byte, for example 01"@
}

/// A security access level typed by hand: exactly one hexadecimal byte.
pub open spec fn spec_security_level(value: Seq<char>) -> Option<u8> {
    match spec_hex_decode(encode_utf8(value)) {
        Ok(b) => if b.len() == 1 {
            Some(b[0])
        } else {
            None
        },
        Err(_) => None,
    }
}

/// Reads the security access level typed by hand.
pub fn security_level(value: &str) -> (r: Result<u8, &'static str>)
    ensures
        match spec_security_level(value@) {
            Some(l) => r == Ok::<u8, &'static str>(l),
            None => r matches Err(t) && t@ == security_level_text(),
        },
{
    match hex_decode(value) {
        Ok(bytes) => {
            if bytes.len() == 1 {
                Ok(bytes[0])
            } else {
                Err("Security level must be exactly one hexadecimal byte, for example 01")
            }
        },
        Err(_) => Err("Security level must be exactly one hexadecimal byte, for example 01"),
    }
}

/// A positive security access (0x27) reply for a level: `67`, the level, data.
pub open spec fn spec_positive_security_reply(response: Seq<u8>, level: u8) -> bool {
    response.len() >= 2 && response[0] == 0x67 && response[1] == level
}

/// Whether a reply is the positive security access reply for the level.
pub fn positive_security_reply(response: &[u8], level: u8) -> (r: bool)
    ensures
        r == spec_positive_security_reply(response@, level),
{
    response.len() >= 2 && response[0] == 0x67 && response[1] == level
}

/// The seed of a positive seed reply, in uppercase hexadecimal.
pub fn seed_from_reply(response: &[u8], level: u8) -> (r: Option<String>)
    ensures
        spec_positive_security_reply(response@, level) ==> (r matches Some(s) && s@ == upper_hex(
            response@.skip(2),
        )),
        !spec_positive_security_reply(response@, level) ==> r is None,
{
    if positive_security_reply(response, level) {
        let seed = &response[2..response.len()];
        assert(seed@ =~= response@.skip(2));
        Some(hex_encode_upper(seed))
    } else {
        None
    }
}

pub open spec fn key_level_text() -> Seq<char> {
    "Security level must be below FF"@
}

pub open spec fn key_text() -> Seq<char> {
    "Enter a non-empty hexadecimal security key"@
}

/// The request that sends a security key: the level above the seed level,
/// then the key bytes.
pub open spec fn spec_security_key_request(level: Seq<char>, key: Seq<char>) -> Result<
    Seq<u8>,
    Seq<char>,
> {
    match spec_security_level(level) {
        None => Err(security_level_text()),
        Some(l) => if l == 0xff {
            Err(key_level_text())
        } else {
            match spec_hex_decode(encode_utf8(key)) {
                Ok(k) => if k.len() > 0 {
                    Ok(seq![(l + 1) as u8] + k)
                } else {
                    Err(key_text())
                },
                Err(_) => Err(key_text()),
            }
        },
    }
}

/// Builds the request that sends a security key, or says what is wrong.
pub fn security_key_request(level: &str, key: &str) -> (r: Result<Vec<u8>, &'static str>)
    ensures
        match spec_security_key_request(level@, key@) {
            Ok(req) => r matches Ok(v) && v@ == req,
            Err(t) => r matches Err(s) && s@ == t,
        },
{
    let seed_level = match security_level(level) {
        Ok(l) => l,
        Err(e) => {
            return Err(e);
        },
    };
    let key_level = match seed_level.checked_add(1) {
        Some(l) => l,
        None => {
            return Err("Security level must be below FF");
        },
    };
    let key_bytes = match hex_decode(key) {
        Ok(k) => {
            if k.len() == 0 {
                return Err("Enter a non-empty hexadecimal security key");
            }
            k
        },
        Err(_) => {
            return Err("Enter a non-empty hexadecimal security key");
        },
    };
    let mut request: Vec<u8> = Vec::new();
    request.push(key_level);
    let mut i: usize = 0;
    while i < key_bytes.len()
        invariant
            i <= key_bytes@.len(),
            request@ =~= seq![key_level] + key_bytes@.take(i as int),
        decreases key_bytes@.len() - i,
    {
        request.push(key_bytes[i]);
        i = i + 1;
    }
    assert(key_bytes@.take(key_bytes@.len() as int) =~= key_bytes@);
    Ok(request)
}

/// The request of a service: its service id, and its arguments with the
/// bytes given by the user ORed in when they fit.
pub open spec fn spec_service_request(payload: Seq<u8>, replace_args: Seq<u8>) -> (u8, Seq<u8>) {
    let args = payload.skip(1);
    let merge = replace_args.len() > 0 && replace_args.len() <= args.len();
    (
        payload[0],
        Seq::new(
            args.len(),
            |i: int|
                if merge && i < replace_args.len() {
                    args[i] | replace_args[i]
                } else {
                    args[i]
                },
        ),
    )
}

/// The request of a service keeps its service id and one argument byte per
/// template byte. When the user's bytes fit the template, each of the first
/// argument bytes holds every bit of its template byte and every bit of the
/// user's byte, and no other bit; the rest, and every byte when the user's
/// bytes are empty or too many, are the template's.
pub proof fn law_service_request_merges_bits(payload: Seq<u8>, replace_args: Seq<u8>)
    requires
        payload.len() >= 1,
    ensures
        ({
            let (sid, args) = spec_service_request(payload, replace_args);
            let fits = 0 < replace_args.len() <= payload.len() - 1;
            &&& sid == payload[0]
            &&& args.len() == payload.len() - 1
            &&& forall|i: int|
                0 <= i < args.len() && fits && i < replace_args.len() ==> {
                    &&& #[trigger] args[i] & payload[i + 1] == payload[i + 1]
                    &&& args[i] & replace_args[i] == replace_args[i]
                    &&& args[i] & !(payload[i + 1] | replace_args[i]) == 0
                }
            &&& forall|i: int|
                0 <= i < args.len() && !(fits && i < replace_args.len()) ==> #[trigger] args[i]
                    == payload[i + 1]
        }),
{
    let (sid, args) = spec_service_request(payload, replace_args);
    let fits = 0 < replace_args.len() <= payload.len() - 1;
    assert forall|i: int| 0 <= i < args.len() && fits && i < replace_args.len() implies {
        &&& #[trigger] args[i] & payload[i + 1] == payload[i + 1]
        &&& args[i] & replace_args[i] == replace_args[i]
        &&& args[i] & !(payload[i + 1] | replace_args[i]) == 0
    } by {
        let a = payload[i + 1];
        let b = replace_args[i];
        assert(args[i] == a | b);
        assert((a | b) & a == a && (a | b) & b == b && (a | b) & !(a | b) == 0) by (bit_vector);
    }
}

/// Builds the request that runs a service.
pub fn service_request(payload: &[u8], replace_args: &[u8]) -> (r: (u8, Vec<u8>))
    requires
        payload@.len() >= 1,
    ensures
        r.0 == spec_service_request(payload@, replace_args@).0,
        r.1@ == spec_service_request(payload@, replace_args@).1,
{
    let ghost spec = spec_service_request(payload@, replace_args@);
    let merge = replace_args.len() > 0 && replace_args.len() <= payload.len() - 1;
    let mut args: Vec<u8> = Vec::new();
    let mut i: usize = 1;
    while i < payload.len()
        invariant
            1 <= i <= payload@.len(),
            spec == spec_service_request(payload@, replace_args@),
            merge == (replace_args@.len() > 0 && replace_args@.len() <= payload@.len() - 1),
            args@.len() == i - 1,
            forall|k: int| 0 <= k < i - 1 ==> args@[k] == spec.1[k],
        decreases payload@.len() - i,
    {
        let b = payload[i];
        let k = i - 1;
        let v = if merge && k < replace_args.len() {
            b | replace_args[k]
        } else {
            b
        };
        args.push(v);
        i = i + 1;
    }
    assert(args@ =~= spec.1);
    (payload[0], args)
}

/// `a` ends with the bytes `b`.
pub open spec fn ends_with(a: Seq<u8>, b: Seq<u8>) -> bool {
    b.len() <= a.len() && a.skip(a.len() - b.len()) == b
}

fn bytes_end_with(a: &[u8], b: &[u8]) -> (r: bool)
    ensures
        r == ends_with(a@, b@),
{
    if b.len() > a.len() {
        return false;
    }
    let alen = a.len();
    let off = alen - b.len();
    let mut i: usize = 0;
    while i < b.len()
        invariant
            off == a@.len() - b@.len(),
            b@.len() <= a@.len(),
            alen == a@.len(),
            i <= b@.len(),
            forall|k: int| 0 <= k < i ==> a@[off + k] == b@[k],
        decreases b@.len() - i,
    {
        if a[off + i] != b[i] {
            assert(a@.skip(off as int)[i as int] != b@[i as int]);
            return false;
        }
        i = i + 1;
    }
    assert(a@.skip(off as int) =~= b@);
    true
}

/// A trouble code as shown to the user; `S` is the state the ECU reports.
#[derive(Clone, Debug)]
pub struct DisplayableDTC<S> {
    pub code: String,
    pub desc: String,
    pub state: S,
    pub mil_on: bool,
    pub envs: Vec<(String, String)>,
}

/// The position of the first known trouble code whose name ends with the code
/// the ECU reported.
pub open spec fn spec_find_dtc(errors: Seq<ECUDTC>, raw: Seq<char>) -> Option<int> {
    first_index(errors, |e: ECUDTC| ends_with(encode_utf8(e.error_name@), encode_utf8(raw)))
}

pub open spec fn dtc_pred(raw: Seq<char>) -> spec_fn(ECUDTC) -> bool {
    |e: ECUDTC| ends_with(encode_utf8(e.error_name@), encode_utf8(raw))
}

/// Finds the known trouble code for a code the ECU reported.
pub fn find_dtc(errors: &Vec<ECUDTC>, raw: &str) -> (r: Option<usize>)
    ensures
        r matches Some(k) ==> k < errors@.len() && first_index(errors@, dtc_pred(raw@)) == Some(
            k as int,
        ),
        r is None ==> first_index(errors@, dtc_pred(raw@)) is None,
{
    let ghost pred = dtc_pred(raw@);
    let mut i: usize = 0;
    while i < errors.len()
        invariant
            i <= errors@.len(),
            pred == dtc_pred(raw@),
            forall|k: int| 0 <= k < i ==> !pred(#[trigger] errors@[k]),
        decreases errors@.len() - i,
    {
        if bytes_end_with(errors[i].error_name.as_str().as_bytes(), raw.as_bytes()) {
            proof {
                lemma_first_index(errors@, pred, i as int);
            }
            return Some(i);
        }
        i = i + 1;
    }
    assert(!(exists|k: int| 0 <= k < errors@.len() && pred(errors@[k])));
    None
}

/// How a reported trouble code is shown: with the name and description of
/// the known code it matches, or as reported with "UNKNOWN DTC"; its freeze
/// frame values are added later, and are read only for a known code that
/// defines freeze-frame parameters (the third component says whether).
pub fn displayable_dtc<S>(errors: &Vec<ECUDTC>, raw: &String, state: S, mil_on: bool) -> (r: (
    DisplayableDTC<S>,
    Option<usize>,
    bool,
))
    ensures
        r.2 == (r.1 matches Some(k) && errors@[k as int].envs@.len() > 0),
        r.1 matches Some(k) ==> k < errors@.len() && first_index(errors@, dtc_pred(raw@)) == Some(
            k as int,
        ) && r.0.code@ == errors@[k as int].error_name@ && r.0.desc@
            == errors@[k as int].description@,
        r.1 is None ==> first_index(errors@, dtc_pred(raw@)) is None && r.0.code@ == raw@
            && r.0.desc@ == "UNKNOWN DTC"@,
        r.0.state == state,
        r.0.mil_on == mil_on,
        r.0.envs@.len() == 0,
{
    match find_dtc(errors, raw.as_str()) {
        Some(k) => (
            DisplayableDTC {
                code: errors[k].error_name.clone(),
                desc: errors[k].description.clone(),
                state,
                mil_on,
                envs: Vec::new(),
            },
            Some(k),
            errors[k].envs.len() > 0,
        ),
        None => (
            DisplayableDTC {
                code: raw.clone(),
                desc: String::from_str("UNKNOWN DTC"),
                state,
                mil_on,
                envs: Vec::new(),
            },
            None,
            false,
        ),
    }
}

/// Navigating to the home page leaves the session.
pub fn leaves_session(target: TargetPage) -> (r: bool)
    ensures
        r == (target == TargetPage::Home),
{
    target == TargetPage::Home
}

/// The kind of a line in the session log.
#[derive(Clone, Copy, Debug, PartialEq, Eq, Structural)]
pub enum LogType {
    Info,
    Error,
}

/// A line for the session log.
#[derive(Debug)]
pub struct LogLine {
    pub kind: LogType,
    pub text: String,
}

fn log(kind: LogType, text: &str) -> (l: LogLine)
    ensures
        l.kind == kind,
        l.text@ == text@,
{
    LogLine { kind, text: String::from_str(text) }
}

fn log_with(kind: LogType, prefix: &str, detail: &str) -> (l: LogLine)
    ensures
        l.kind == kind,
        l.text@ == prefix@ + detail@,
{
    let mut text = String::from_str(prefix);
    text.append(detail);
    LogLine { kind, text }
}

/// What `str::to_uppercase` makes of a text (Unicode uppercase mapping).
pub uninterp spec fn uppercase(s: Seq<char>) -> Seq<char>;

/// `str::to_uppercase`.
#[verifier::external_body]
pub(crate) fn to_uppercase(s: &str) -> (r: String)
    ensures
        r@ == uppercase(s@),
{
    s.to_uppercase()
}

/// Bytes as `{:02X?}` shows them: `[` , two uppercase digits each, `, ` between, `]`.
pub open spec fn hex_list(b: Seq<u8>) -> Seq<char> {
    "["@ + hex_items(b) + "]"@
}

pub open spec fn hex_items(b: Seq<u8>) -> Seq<char>
    decreases b.len(),
{
    if b.len() == 0 {
        Seq::empty()
    } else if b.len() == 1 {
        hex_fixed(b[0] as nat, 2)
    } else {
        hex_items(b.drop_last()) + ", "@ + hex_fixed(b.last() as nat, 2)
    }
}

fn push_hex_list(s: &mut String, b: &[u8])
    ensures
        final(s)@ == old(s)@ + hex_list(b@),
{
    s.append("[");
    let ghost start = s@;
    let mut i: usize = 0;
    while i < b.len()
        invariant
            i <= b@.len(),
            s@ == start + hex_items(b@.take(i as int)),
        decreases b@.len() - i,
    {
        assert(b@.take(i + 1).drop_last() =~= b@.take(i as int));
        assert(b@.take(i + 1).last() == b@[i as int]);
        if i > 0 {
            s.append(", ");
        }
        push_hex_fixed(s, b[i] as u32, 2);
        proof {
            if i == 0 {
                assert(b@.take(1).len() == 1);
                assert(s@ =~= start + hex_items(b@.take(1)));
            } else {
                assert(s@ =~= start + hex_items(b@.take(i + 1)));
            }
        }
        i = i + 1;
    }
    assert(b@.take(b@.len() as int) =~= b@);
    s.append("]");
    assert(final(s)@ =~= old(s)@ + hex_list(b@));
}

/// How a JSON session reaches its ECU over ISO-TP.
#[derive(Clone, Copy, Debug, PartialEq, Eq, Structural)]
pub struct IsoTpSettings {
    pub baud: u32,
    pub ext_can_addr: bool,
    pub ext_isotp_addr: bool,
    pub block_size: u32,
    pub st_min: u32,
    pub send_id: u32,
    pub recv_id: u32,
    pub global_id: Option<u32>,
    pub uds: bool,
}

/// The settings of the diagnostic server for a connection; K-Line is not offered.
pub fn interface_settings(connection: &Connection) -> (r: Result<IsoTpSettings, SessionError>)
    ensures
        connection.connection_type is LIN ==> (r matches Err(SessionError::Other(t)) && t@
            == "K-Line is not implemented at this time"@),
        connection.connection_type matches ConType::ISOTP {
            blocksize,
            st_min,
            ext_isotp_addr,
            ext_can_addr,
        } ==> r == Ok::<IsoTpSettings, SessionError>(
            IsoTpSettings {
                baud: connection.baud,
                ext_can_addr,
                ext_isotp_addr,
                block_size: blocksize,
                st_min,
                send_id: connection.send_id,
                recv_id: connection.recv_id,
                global_id: connection.global_send_id,
                uds: connection.server_type == ServerType::UDS,
            },
        ),
{
    match connection.connection_type {
        ConType::ISOTP { blocksize, st_min, ext_isotp_addr, ext_can_addr } => Ok(
            IsoTpSettings {
                baud: connection.baud,
                ext_can_addr,
                ext_isotp_addr,
                block_size: blocksize,
                st_min,
                send_id: connection.send_id,
                recv_id: connection.recv_id,
                global_id: connection.global_send_id,
                uds: match connection.server_type {
                    ServerType::UDS => true,
                    ServerType::KWP2000 => false,
                },
            },
        ),
        ConType::LIN { .. } => Err(
            SessionError::Other(String::from_str("K-Line is not implemented at this time")),
        ),
    }
}

/// The state of a JSON session that its decisions read and change; `S` is
/// the trouble-code state the ECU reports.
#[derive(Debug)]
pub struct JsonDiagSession<S> {
    pub connection: Connection,
    pub ecu_name: String,
    pub ecu_description: String,
    pub variants: Vec<ECUVariantDefinition>,
    pub variant_options: Vec<VariantChoice>,
    pub selected_variant: usize,
    pub variant: usize,
    pub pattern: usize,
    pub service_selector: ServiceSelector,
    pub looping_service: Option<ServiceRef>,
    pub looping_text: String,
    pub logged_dtcs: Vec<DisplayableDTC<S>>,
    pub security_level: String,
    pub security_seed: String,
    pub security_key: String,
    pub page_state: TargetPage,
}

impl<S> JsonDiagSession<S> {
    /// The session's choices refer to existing variants, patterns and services.
    pub open spec fn wf(&self) -> bool {
        &&& self.variant < self.variants@.len()
        &&& self.pattern < self.variants@[self.variant as int].patterns@.len()
        &&& self.variant_options@.len() == self.variants@.len()
        &&& selector_wf(self.service_selector@)
    }

    /// Starts the session state once the server runs, as the variant and
    /// pattern that the ECU's reported vendor id selects. A K-Line connection
    /// is refused before anything else.
    pub fn new(ecu: OvdECU, connection: Connection, identified: Option<u32>) -> (r: Result<
        JsonDiagSession<S>,
        SessionError,
    >)
        ensures
            connection.connection_type is LIN ==> (r matches Err(SessionError::Other(e)) && e@
                == "K-Line is not implemented at this time"@),
            connection.connection_type is ISOTP ==> match spec_choose_variant(ecu.variants@, identified) {
                Ok((vi, pi)) => r matches Ok(s) && s.wf() && s.variant == vi && s.pattern == pi
                    && s.selected_variant == vi && s.variants@ == ecu.variants@ && s.page_state
                    == TargetPage::Main && s.security_level@ == "01"@ && s.security_seed@.len() == 0
                    && s.security_key@.len() == 0 && s.looping_service is None
                    && s.looping_text@.len() == 0 && s.logged_dtcs@.len() == 0
                    && s.ecu_name@ == ecu.name@ && s.ecu_description@ == ecu.description@
                    && s.connection == connection && variant_options_of(s.variant_options@, ecu.variants@)
                    && fresh_selector_for(s.service_selector@, ecu.variants@[vi]),
                Err(t) => r matches Err(SessionError::Other(e)) && e@ == t,
            },
    {
        if let Err(e) = interface_settings(&connection) {
            return Err(e);
        }
        let (vi, pi) = match choose_variant(&ecu.variants, identified) {
            Ok(c) => c,
            Err(e) => {
                return Err(e);
            },
        };
        let options = variant_choices(&ecu.variants);
        let selector = service_selector_for_variant(&ecu.variants[vi]);
        let OvdECU { name, description, variants, .. } = ecu;
        Ok(
            JsonDiagSession {
                connection,
                ecu_name: name,
                ecu_description: description,
                variants,
                variant_options: options,
                selected_variant: vi,
                variant: vi,
                pattern: pi,
                service_selector: selector,
                looping_service: None,
                looping_text: String::new(),
                logged_dtcs: Vec::new(),
                security_level: String::from_str("01"),
                security_seed: String::new(),
                security_key: String::new(),
                page_state: TargetPage::Main,
            },
        )
    }

    /// Runs the session as another variant, with its first pattern and its
    /// services; looping stops. A variant without a pattern is refused.
    pub fn select_variant(&mut self, index: usize) -> (l: Option<LogLine>)
        requires
            old(self).wf(),
        ensures
            final(self).wf(),
            index >= old(self).variants@.len() ==> l is None && final(self).variant == old(self).variant
                && final(self).pattern == old(self).pattern && final(self).looping_service
                == old(self).looping_service,
            index < old(self).variants@.len() && old(self).variants@[index as int].patterns@.len() == 0
                ==> (l matches Some(line) && line.kind == LogType::Error && line.text@
                == "Selected ECU variant has no identification pattern"@ && final(self).variant
                == old(self).variant),
            index < old(self).variants@.len() && old(self).variants@[index as int].patterns@.len() > 0
                ==> l is None && final(self).variant == index && final(self).pattern == 0
                && final(self).selected_variant == index && final(self).looping_service is None
                && fresh_selector_for(final(self).service_selector@, old(self).variants@[index as int]),
            !(index < old(self).variants@.len() && old(self).variants@[index as int].patterns@.len()
                > 0) ==> final(self).service_selector@ == old(self).service_selector@
                && final(self).pattern == old(self).pattern && final(self).selected_variant
                == old(self).selected_variant && final(self).looping_service
                == old(self).looping_service,
            *final(self) == (JsonDiagSession {
                service_selector: final(self).service_selector,
                variant: final(self).variant,
                pattern: final(self).pattern,
                selected_variant: final(self).selected_variant,
                looping_service: final(self).looping_service,
                ..*old(self)
            }),
    {
        match variant_switch(&self.variants, index) {
            VariantSwitch::Ignore => None,
            VariantSwitch::NoPattern => Some(
                log(LogType::Error, "Selected ECU variant has no identification pattern"),
            ),
            VariantSwitch::Switch => {
                self.service_selector = service_selector_for_variant(&self.variants[index]);
                self.variant = index;
                self.pattern = 0;
                self.selected_variant = index;
                self.looping_service = None;
                None
            },
        }
    }

    /// Goes to a page.
    pub fn navigate(&mut self, target: TargetPage)
        ensures
            *final(self) == (JsonDiagSession { page_state: target, ..*old(self) }),
            final(self).wf() == old(self).wf(),
    {
        self.page_state = target;
    }

    /// Takes the security level typed by hand, in uppercase.
    pub fn enter_security_level(&mut self, level: &String)
        ensures
            final(self).security_level@ == uppercase(level@),
            *final(self) == (JsonDiagSession { security_level: final(self).security_level, ..*old(self) }),
            final(self).wf() == old(self).wf(),
    {
        self.security_level = to_uppercase(level.as_str());
    }

    /// Takes the seed typed by hand, in uppercase.
    pub fn enter_security_seed(&mut self, seed: &String)
        ensures
            final(self).security_seed@ == uppercase(seed@),
            *final(self) == (JsonDiagSession { security_seed: final(self).security_seed, ..*old(self) }),
            final(self).wf() == old(self).wf(),
    {
        self.security_seed = to_uppercase(seed.as_str());
    }

    /// Takes the key typed by hand, in uppercase.
    pub fn enter_security_key(&mut self, key: &String)
        ensures
            final(self).security_key@ == uppercase(key@),
            *final(self) == (JsonDiagSession { security_key: final(self).security_key, ..*old(self) }),
            final(self).wf() == old(self).wf(),
    {
        self.security_key = to_uppercase(key.as_str());
    }

    /// The level for a seed request (sent as `27 level`), or the complaint.
    pub fn seed_request(&self) -> (r: Result<u8, LogLine>)
        ensures
            match spec_security_level(self.security_level@) {
                Some(l) => r matches Ok(x) && x == l,
                None => r matches Err(line) && line.kind == LogType::Error && line.text@
                    == security_level_text(),
            },
    {
        match security_level(self.security_level.as_str()) {
            Ok(l) => Ok(l),
            Err(t) => Err(log(LogType::Error, t)),
        }
    }

    /// Takes the reply to a seed request: a positive reply gives the seed.
    pub fn seed_reply(&mut self, level: u8, reply: Result<Vec<u8>, String>) -> (l: LogLine)
        ensures
            *final(self) == (JsonDiagSession { security_seed: final(self).security_seed, ..*old(self) }),
            final(self).wf() == old(self).wf(),
            match reply {
                Ok(resp) => if spec_positive_security_reply(resp@, level) {
                    &&& final(self).security_seed@ == upper_hex(resp@.skip(2))
                    &&& l.kind == LogType::Info
                    &&& l.text@ == "Security seed for level "@ + hex_fixed(level as nat, 2) + ": "@
                        + upper_hex(resp@.skip(2))
                } else {
                    &&& l.kind == LogType::Error
                    &&& l.text@ == "Unexpected Security Access seed response: "@ + hex_list(resp@)
                    &&& final(self).security_seed == old(self).security_seed
                },
                Err(e) => {
                    &&& l.kind == LogType::Error
                    &&& l.text@ == "Error requesting Security Access seed: "@ + e@
                    &&& final(self).security_seed == old(self).security_seed
                },
            },
    {
        match reply {
            Ok(resp) => match seed_from_reply(resp.as_slice(), level) {
                Some(seed) => {
                    let mut text = String::from_str("Security seed for level ");
                    push_hex_fixed(&mut text, level as u32, 2);
                    text.append(": ");
                    text.append(seed.as_str());
                    self.security_seed = seed;
                    LogLine { kind: LogType::Info, text }
                },
                None => {
                    let mut text = String::from_str("Unexpected Security Access seed response: ");
                    push_hex_list(&mut text, resp.as_slice());
                    LogLine { kind: LogType::Error, text }
                },
            },
            Err(e) => log_with(LogType::Error, "Error requesting Security Access seed: ", e.as_str()),
        }
    }

    /// The request that sends the key typed by hand, or the complaint.
    pub fn key_request(&self) -> (r: Result<Vec<u8>, LogLine>)
        ensures
            match spec_security_key_request(self.security_level@, self.security_key@) {
                Ok(req) => r matches Ok(v) && v@ == req,
                Err(t) => r matches Err(line) && line.kind == LogType::Error && line.text@ == t,
            },
    {
        match security_key_request(self.security_level.as_str(), self.security_key.as_str()) {
            Ok(v) => Ok(v),
            Err(t) => Err(log(LogType::Error, t)),
        }
    }

    /// Takes a trouble-code list that was read; from the main page the error
    /// page is shown (the result says whether to go there).
    pub fn errors_read(&mut self, dtcs: Vec<DisplayableDTC<S>>) -> (go_to_errors: bool)
        ensures
            final(self).logged_dtcs@ == dtcs@,
            *final(self) == (JsonDiagSession { logged_dtcs: final(self).logged_dtcs, ..*old(self) }),
            go_to_errors == (old(self).page_state == TargetPage::Main),
            final(self).wf() == old(self).wf(),
    {
        self.logged_dtcs = dtcs;
        self.page_state == TargetPage::Main
    }

    /// Reading the trouble codes failed: the list is emptied.
    pub fn errors_failed(&mut self, error: &str) -> (l: LogLine)
        ensures
            final(self).logged_dtcs@.len() == 0,
            *final(self) == (JsonDiagSession { logged_dtcs: final(self).logged_dtcs, ..*old(self) }),
            l.kind == LogType::Error,
            l.text@ == "Error reading ECU Errors: "@ + error@,
            final(self).wf() == old(self).wf(),
    {
        self.logged_dtcs = Vec::new();
        log_with(LogType::Error, "Error reading ECU Errors: ", error)
    }

    /// The reply to clearing the trouble codes: on success the list is emptied.
    pub fn errors_cleared(&mut self, reply: Result<(), String>) -> (l: LogLine)
        ensures
            *final(self) == (JsonDiagSession { logged_dtcs: final(self).logged_dtcs, ..*old(self) }),
            final(self).wf() == old(self).wf(),
            reply is Ok ==> final(self).logged_dtcs@.len() == 0 && l.kind == LogType::Info
                && l.text@ == "Clear ECU Errors OK!"@,
            reply matches Err(e) ==> final(self).logged_dtcs == old(self).logged_dtcs && l.kind
                == LogType::Error && l.text@ == "Error clearing ECU Errors: "@ + e@,
    {
        match reply {
            Ok(_) => {
                self.logged_dtcs = Vec::new();
                log(LogType::Info, "Clear ECU Errors OK!")
            },
            Err(e) => log_with(LogType::Error, "Error clearing ECU Errors: ", e.as_str()),
        }
    }

    /// Hands a picker message on; the session keeps the service read in a loop.
    pub fn selector_message(&mut self, msg: &SelectorMsg) -> (a: SelectorAction)
        requires
            old(self).wf(),
            is_valid_pick(old(self).service_selector@, *msg),
        ensures
            final(self).wf(),
            *final(self) == (JsonDiagSession {
                service_selector: final(self).service_selector,
                looping_service: final(self).looping_service,
                ..*old(self)
            }),
            msg matches SelectorMsg::PickLoopService(i) ==> a is Nothing && final(self).service_selector@
                == old(self).service_selector@ && (i < current_list(old(self).service_selector@).len()
                ==> (final(self).looping_service matches Some(s) && same_service(
                s.inner,
                current_list(old(self).service_selector@)[i as int].inner,
            )) && (i >= current_list(old(self).service_selector@).len()
                ==> final(self).looping_service == old(self).looping_service)),
            msg is StopLoopService ==> final(self).looping_service is None
                && final(self).service_selector@ == spec_selector_update(
                old(self).service_selector@,
                *msg,
            ).0,
            !(msg is PickLoopService) && !(msg is StopLoopService) ==> final(self).looping_service
                == old(self).looping_service && final(self).service_selector@
                == spec_selector_update(old(self).service_selector@, *msg).0,
    {
        match msg {
            SelectorMsg::PickLoopService(i) => {
                let i = *i;
                let list = if self.service_selector.view_selection[0] {
                    &self.service_selector.read_services
                } else if self.service_selector.view_selection[1] {
                    &self.service_selector.write_services
                } else {
                    &self.service_selector.actuation_services
                };
                if i < list.len() {
                    self.looping_service = Some(list[i].clone());
                }
                SelectorAction::Nothing
            },
            SelectorMsg::StopLoopService => {
                self.looping_service = None;
                self.service_selector.update(msg)
            },
            _ => self.service_selector.update(msg),
        }
    }
}

/// How `{:?}` writes a `bool`.
pub open spec fn bool_text(b: bool) -> Seq<char> {
    if b {
        "true"@
    } else {
        "false"@
    }
}

/// How `{:?}` writes a connection type: the variant and its fields.
pub open spec fn con_type_text(c: ConType) -> Seq<char> {
    match c {
        ConType::ISOTP { blocksize, st_min, ext_isotp_addr, ext_can_addr } => "ISOTP { blocksize: "@
            + decimal(blocksize as nat) + ", st_min: "@ + decimal(st_min as nat)
            + ", ext_isotp_addr: "@ + bool_text(ext_isotp_addr) + ", ext_can_addr: "@ + bool_text(
            ext_can_addr,
        ) + " }"@,
        ConType::LIN { max_segment_size, wake_up_method } => "LIN { max_segment_size: "@ + decimal(
            max_segment_size as nat,
        ) + ", wake_up_method: "@ + wake_up_method@ + " }"@,
    }
}

fn push_bool(s: &mut String, b: bool)
    ensures
        final(s)@ == old(s)@ + bool_text(b),
{
    if b {
        s.append("true");
    } else {
        s.append("false");
    }
}

/// The line under the session title that says how the ECU is reached.
pub fn connection_text(connection: &Connection) -> (t: String)
    ensures
        t@ == "Automatic connection method!: Using "@ + con_type_text(connection.connection_type)
            + " at "@ + decimal(connection.baud as nat) + "bps with "@ + server_type_text(
            connection.server_type,
        ) + " a diagnostic server"@,
{
    let mut t = String::from_str("Automatic connection method!: Using ");
    match &connection.connection_type {
        ConType::ISOTP { blocksize, st_min, ext_isotp_addr, ext_can_addr } => {
            t.append("ISOTP { blocksize: ");
            push_decimal(&mut t, *blocksize as u128);
            t.append(", st_min: ");
            push_decimal(&mut t, *st_min as u128);
            t.append(", ext_isotp_addr: ");
            push_bool(&mut t, *ext_isotp_addr);
            t.append(", ext_can_addr: ");
            push_bool(&mut t, *ext_can_addr);
            t.append(" }");
        },
        ConType::LIN { max_segment_size, wake_up_method } => {
            t.append("LIN { max_segment_size: ");
            push_decimal(&mut t, *max_segment_size as u128);
            t.append(", wake_up_method: ");
            t.append(wake_up_method.as_str());
            t.append(" }");
        },
    }
    t.append(" at ");
    push_decimal(&mut t, connection.baud as u128);
    t.append("bps with ");
    match connection.server_type {
        ServerType::UDS => t.append("UDS"),
        ServerType::KWP2000 => t.append("KWP2000"),
    }
    t.append(" a diagnostic server");
    t
}

impl<S> JsonDiagSession<S> {
    /// The session title: ECU name and description, the variant it runs as and
    /// the vendor of its pattern.
    pub fn title(&self) -> (t: String)
        requires
            self.wf(),
        ensures
            t@ == "ECU: "@ + self.ecu_name@ + " ("@ + self.ecu_description@ + "). DiagVersion: "@
                + self.variants@[self.variant as int].name@ + ", Vendor: "@
                + self.variants@[self.variant as int].patterns@[self.pattern as int].vendor@,
    {
        let v = &self.variants[self.variant];
        let mut t = String::from_str("ECU: ");
        t.append(self.ecu_name.as_str());
        t.append(" (");
        t.append(self.ecu_description.as_str());
        t.append("). DiagVersion: ");
        t.append(v.name.as_str());
        t.append(", Vendor: ");
        t.append(v.patterns[self.pattern].vendor.as_str());
        t
    }

    /// The rows of the ECU information page: name, description, the variant
    /// the session runs as and its vendor, then, for a KWP2000 server, what
    /// its identification reads gave (`kwp` is `None` for other servers).
    pub fn info_rows(
        &self,
        kwp: Option<(Option<PartIdentification>, Option<BuildDates>)>,
    ) -> (rows: Vec<(String, String)>)
        requires
            self.wf(),
        ensures
            rows_view(rows@) == seq![
                ("Name"@, self.ecu_name@),
                ("Description"@, self.ecu_description@),
                ("Software"@, self.variants@[self.variant as int].name@),
                ("Manufacture"@, self.variants@[self.variant as int].patterns@[self.pattern as int].vendor@),
            ] + match kwp {
                Some((part, dates)) => kwp_info_rows(part, dates),
                None => Seq::empty(),
            },
    {
        let v = &self.variants[self.variant];
        let mut rows: Vec<(String, String)> = Vec::new();
        push_row(&mut rows, "Name", self.ecu_name.as_str());
        push_row(&mut rows, "Description", self.ecu_description.as_str());
        push_row(&mut rows, "Software", v.name.as_str());
        push_row(&mut rows, "Manufacture", v.patterns[self.pattern].vendor.as_str());
        let ghost base = rows_view(rows@);
        if let Some((part, dates)) = &kwp {
            match part {
                Some(p) => {
                    push_row(&mut rows, "Part number", p.part_number.as_str());
                    push_row(&mut rows, "Hardware version", p.hardware_version.as_str());
                    push_row(&mut rows, "Software version", p.software_version.as_str());
                },
                None => {
                    push_row(&mut rows, "Part number", "Unknown");
                    push_row(&mut rows, "Hardware version", "Unknown");
                    push_row(&mut rows, "Software version", "Unknown");
                },
            }
            match dates {
                Some(d) => {
                    push_row(&mut rows, "Hardware build date (WW/YY)", d.hardware_build_date.as_str());
                    push_row(&mut rows, "Software build date (WW/YY)", d.software_written_date.as_str());
                    push_row(&mut rows, "Production date (DD/MM/YY)", d.production_date.as_str());
                },
                None => {
                    push_row(&mut rows, "Hardware build date (WW/YY)", "Unknown");
                    push_row(&mut rows, "Software build date (WW/YY)", "Unknown");
                    push_row(&mut rows, "Production date (DD/MM/YY)", "Unknown");
                },
            }
            assert(rows_view(rows@) =~= base + kwp_info_rows(*part, *dates));
        } else {
            assert(rows_view(rows@) =~= base + Seq::empty());
        }
        rows
    }

    /// The freeze-frame rows of the `index`-th trouble code read: each
    /// parameter's name and value.
    pub fn env_rows(&self, index: usize) -> (rows: Vec<(String, String)>)
        requires
            index < self.logged_dtcs@.len(),
        ensures
            rows_view(rows@) == rows_view(self.logged_dtcs@[index as int].envs@),
    {
        let envs = &self.logged_dtcs[index].envs;
        let mut rows: Vec<(String, String)> = Vec::new();
        let mut i: usize = 0;
        while i < envs.len()
            invariant
                i <= envs@.len(),
                rows_view(rows@) =~= rows_view(envs@.take(i as int)),
            decreases envs@.len() - i,
        {
            let (name, value) = &envs[i];
            rows.push((name.clone(), value.clone()));
            assert(rows_view(envs@.take(i + 1)) =~= rows_view(envs@.take(i as int)).push(
                (name@, value@),
            ));
            i = i + 1;
        }
        assert(envs@.take(envs@.len() as int) =~= envs@);
        rows
    }

    /// Whether the KWP2000 session buttons are shown: the ECU speaks KWP2000.
    pub fn offers_kwp_sessions(&self) -> (r: bool)
        ensures
            r == (self.connection.server_type == ServerType::KWP2000),
    {
        match self.connection.server_type {
            ServerType::KWP2000 => true,
            ServerType::UDS => false,
        }
    }

    /// Whether the variant picker is shown: there is more than one variant.
    pub fn offers_variant_choice(&self) -> (r: bool)
        ensures
            r == (self.variant_options@.len() > 1),
    {
        self.variant_options.len() > 1
    }
}

/// The part identification a KWP2000 ECU reports.
#[derive(Clone, Debug)]
pub struct PartIdentification {
    pub part_number: String,
    pub hardware_version: String,
    pub software_version: String,
}

/// The build dates a KWP2000 ECU reports.
#[derive(Clone, Debug)]
pub struct BuildDates {
    pub hardware_build_date: String,
    pub software_written_date: String,
    pub production_date: String,
}

/// The rows of a two-column table, as text.
pub open spec fn rows_view(rows: Seq<(String, String)>) -> Seq<(Seq<char>, Seq<char>)> {
    rows.map_values(|r: (String, String)| (r.0@, r.1@))
}

/// The identification rows of a KWP2000 ECU: what it reported, or "Unknown"
/// for each value of a read that failed.
pub open spec fn kwp_info_rows(part: Option<PartIdentification>, dates: Option<BuildDates>) -> Seq<
    (Seq<char>, Seq<char>),
> {
    (match part {
        Some(p) => seq![
            ("Part number"@, p.part_number@),
            ("Hardware version"@, p.hardware_version@),
            ("Software version"@, p.software_version@),
        ],
        None => seq![
            ("Part number"@, "Unknown"@),
            ("Hardware version"@, "Unknown"@),
            ("Software version"@, "Unknown"@),
        ],
    }) + (match dates {
        Some(d) => seq![
            ("Hardware build date (WW/YY)"@, d.hardware_build_date@),
            ("Software build date (WW/YY)"@, d.software_written_date@),
            ("Production date (DD/MM/YY)"@, d.production_date@),
        ],
        None => seq![
            ("Hardware build date (WW/YY)"@, "Unknown"@),
            ("Software build date (WW/YY)"@, "Unknown"@),
            ("Production date (DD/MM/YY)"@, "Unknown"@),
        ],
    })
}

fn push_row(rows: &mut Vec<(String, String)>, name: &str, value: &str)
    ensures
        rows_view(final(rows)@) == rows_view(old(rows)@).push((name@, value@)),
{
    rows.push((String::from_str(name), String::from_str(value)));
    assert(rows_view(rows@) =~= rows_view(old(rows)@).push((name@, value@)));
}

/// The log line for the reply to a KWP session change.
pub fn kwp_session_reply(mode: u8, reply: Result<(), String>) -> (l: LogLine)
    ensures
        reply is Ok ==> l.kind == LogType::Info && l.text@ == "KWP diagnostic session set to 0x"@
            + hex_fixed(mode as nat, 2),
        reply matches Err(e) ==> l.kind == LogType::Error && l.text@
            == "Error setting KWP diagnostic session: "@ + e@,
{
    match reply {
        Ok(_) => {
            let mut text = String::from_str("KWP diagnostic session set to 0x");
            push_hex_fixed(&mut text, mode as u32, 2);
            LogLine { kind: LogType::Info, text }
        },
        Err(e) => log_with(LogType::Error, "Error setting KWP diagnostic session: ", e.as_str()),
    }
}

/// The log line for the reply to a security key.
pub fn key_reply(key_level: u8, reply: Result<Vec<u8>, String>) -> (l: LogLine)
    ensures
        reply matches Ok(resp) ==> (if spec_positive_security_reply(resp@, key_level) {
            l.kind == LogType::Info && l.text@ == "Security Access unlocked"@
        } else {
            l.kind == LogType::Error && l.text@ == "Unexpected Security Access key response: "@
                + hex_list(resp@)
        }),
        reply matches Err(e) ==> l.kind == LogType::Error && l.text@
            == "Error sending Security Access key: "@ + e@,
{
    match reply {
        Ok(resp) => {
            if positive_security_reply(resp.as_slice(), key_level) {
                log(LogType::Info, "Security Access unlocked")
            } else {
                let mut text = String::from_str("Unexpected Security Access key response: ");
                push_hex_list(&mut text, resp.as_slice());
                LogLine { kind: LogType::Error, text }
            }
        },
        Err(e) => log_with(LogType::Error, "Error sending Security Access key: ", e.as_str()),
    }
}

/// The title of a service's reply in the log: its name and description.
pub fn service_title(service: &ServiceRef) -> (t: String)
    ensures
        t@ == service.inner.name@ + " ("@ + service.inner.description@ + "):"@,
{
    let mut t = service.inner.name.clone();
    t.append(" (");
    t.append(service.inner.description.as_str());
    t.append("):");
    t
}

/// The log line for a service that failed.
pub fn service_failed(service: &ServiceRef, error: &str) -> (l: LogLine)
    ensures
        l.kind == LogType::Error,
        l.text@ == "Error executing "@ + service.inner.name@ + ": "@ + error@,
{
    let mut t = String::from_str("Error executing ");
    t.append(service.inner.name.as_str());
    t.append(": ");
    t.append(error);
    LogLine { kind: LogType::Error, text: t }
}

/// The text shown for a service read in a loop: name, description, reply.
pub fn looping_text(service: &ServiceRef, reply_text: &str) -> (t: String)
    ensures
        t@ == service.inner.name@ + "("@ + service.inner.description@ + ")\n->"@ + reply_text@,
{
    let mut t = service.inner.name.clone();
    t.append("(");
    t.append(service.inner.description.as_str());
    t.append(")\n->");
    t.append(reply_text);
    t
}

} // verus!



