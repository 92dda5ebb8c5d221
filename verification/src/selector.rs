//! The service picker of a JSON session: read, write and actuation services,
//! a search over their names, and the choice of the service to run or to read
//! in a loop.
use vstd::prelude::*;
use vstd::string::StringExecFns;
use vstd::utf8::{encode_utf8, is_ascii_chars, is_ascii_chars_encode_utf8};
use vstd::string::StringSliceAdditionalSpecFns;
use crate::schema::{same_service, ECUVariantDefinition, Service};

verus! {

/// What `str::to_lowercase` makes of a text (Unicode lowercase mapping).
pub uninterp spec fn lowercase(s: Seq<char>) -> Seq<char>;

/// How Unicode lowercases ASCII text: `A`-`Z` become `a`-`z`, every other
/// character stays.
pub open spec fn ascii_lowercase(s: Seq<char>) -> Seq<char> {
    s.map_values(|c: char| if 'A' <= c <= 'Z' { ((c as u32) + 32) as char } else { c })
}

/// `str::to_lowercase`; on ASCII text it maps `A`-`Z` to `a`-`z` and keeps
/// every other character.
#[verifier::external_body]
pub(crate) fn to_lowercase(s: &str) -> (r: String)
    ensures
        r@ == lowercase(s@),
        is_ascii_chars(s@) ==> r@ == ascii_lowercase(s@),
{
    s.to_lowercase()
}

/// The bytes `needle` occur in `hay` (an empty needle occurs everywhere).
pub open spec fn contains_bytes(hay: Seq<u8>, needle: Seq<u8>) -> bool {
    exists|i: int|
        0 <= i <= hay.len() - needle.len() && #[trigger] hay.subrange(i, i + needle.len()) == needle
}

/// Whether `needle` occurs in `hay`, as `str::contains` finds it.
pub fn contains(hay: &str, needle: &str) -> (r: bool)
    ensures
        r == contains_bytes(hay.spec_bytes(), needle.spec_bytes()),
{
    let h = hay.as_bytes();
    let n = needle.as_bytes();
    if n.len() > h.len() {
        return false;
    }
    if n.len() == 0 {
        assert(h@.subrange(0, 0int + n@.len()) =~= n@);
        return true;
    }
    let hlen = h.len();
    let last = h.len() - n.len();
    let mut i: usize = 0;
    while i < last + 1
        invariant
            h@ == hay.spec_bytes(),
            n@ == needle.spec_bytes(),
            last == h@.len() - n@.len(),
            hlen == h@.len(),
            0 < n@.len() <= h@.len(),
            i <= last + 1,
            forall|k: int| 0 <= k < i ==> #[trigger] h@.subrange(k, k + n@.len()) != n@,
        decreases last + 1 - i,
    {
        let mut j: usize = 0;
        let mut same = true;
        while j < n.len()
            invariant
                n@.len() <= h@.len(),
                hlen == h@.len(),
                i <= last,
                last == h@.len() - n@.len(),
                j <= n@.len(),
                same == forall|k: int| 0 <= k < j ==> h@[i + k] == n@[k],
            decreases n@.len() - j,
        {
            if h[i + j] != n[j] {
                same = false;
            }
            j = j + 1;
        }
        if same {
            assert(h@.subrange(i as int, i + n@.len()) =~= n@);
            return true;
        }
        assert(h@.subrange(i as int, i + n@.len()) != n@) by {
            let k = choose|k: int| 0 <= k < n@.len() && h@[i + k] != n@[k];
            assert(h@.subrange(i as int, i + n@.len())[k] != n@[k]);
        }
        i = i + 1;
    }
    proof {
        assert forall|k: int| 0 <= k <= h@.len() - n@.len() implies #[trigger] h@.subrange(
            k,
            k + n@.len(),
        ) != n@ by {}
    }
    false
}

/// A service offered by the picker.
#[derive(Debug)]
pub struct ServiceRef {
    pub inner: Service,
}

impl Clone for ServiceRef {
    fn clone(&self) -> (r: Self)
        ensures
            same_service(r.inner, self.inner),
    {
        ServiceRef { inner: self.inner.clone() }
    }
}

/// The service's name, lowercased, contains the (lowercased) query.
pub open spec fn spec_match_query(s: ServiceRef, q: Seq<char>) -> bool {
    contains_bytes(encode_utf8(lowercase(s.inner.name@)), encode_utf8(q))
}

impl ServiceRef {
    /// Whether the service's name matches a lowercased query.
    pub fn match_query(&self, q: &str) -> (r: bool)
        ensures
            r == spec_match_query(*self, q@),
    {
        let name = to_lowercase(self.inner.name.as_str());
        contains(name.as_str(), q)
    }

    /// Whether the service takes input parameters.
    pub fn require_input(&self) -> (r: bool)
        ensures
            r == (self.inner.input_params@.len() > 0),
    {
        self.inner.input_params.len() > 0
    }

    /// The name shown in the picker.
    pub fn to_string(&self) -> (r: String)
        ensures
            r@ == self.inner.name@,
    {
        self.inner.name.clone()
    }
}

/// What the picker is asked to do. Services are named by their position in
/// the list of the category on view.
#[derive(Clone, Debug)]
pub enum SelectorMsg {
    ViewRead,
    ViewWrite,
    ViewActuation,
    PickService(usize),
    PickLoopService(usize),
    StopLoopService,
    BeginLoopService,
    ExecService,
    Search(String),
}

/// What the session does after the picker decided.
#[derive(Clone, Debug)]
pub enum SelectorAction {
    Nothing,
    /// Read this service in a loop.
    BeginLoop(usize),
    /// Run this service with these argument bytes.
    Execute(usize, Vec<u8>),
}

/// The picker.
#[derive(Debug)]
pub struct ServiceSelector {
    pub read_services: Vec<ServiceRef>,
    pub write_services: Vec<ServiceRef>,
    pub actuation_services: Vec<ServiceRef>,
    pub shown_services: Vec<usize>,
    pub query_string: String,
    pub is_loop: bool,
    pub args: Vec<u8>,
    pub input_require: bool,
    pub can_execute: bool,
    pub selected_service: Option<usize>,
    pub view_selection: [bool; 3],
}

/// The mathematical content of the picker.
#[verifier::ext_equal]
pub struct SelectorView {
    pub read_services: Seq<ServiceRef>,
    pub write_services: Seq<ServiceRef>,
    pub actuation_services: Seq<ServiceRef>,
    pub shown_services: Seq<usize>,
    pub query_string: Seq<char>,
    pub is_loop: bool,
    pub args: Seq<u8>,
    pub input_require: bool,
    pub can_execute: bool,
    pub selected_service: Option<usize>,
    pub view_selection: Seq<bool>,
}

impl View for ServiceSelector {
    type V = SelectorView;

    open spec fn view(&self) -> SelectorView {
        SelectorView {
            read_services: self.read_services@,
            write_services: self.write_services@,
            actuation_services: self.actuation_services@,
            shown_services: self.shown_services@,
            query_string: self.query_string@,
            is_loop: self.is_loop,
            args: self.args@,
            input_require: self.input_require,
            can_execute: self.can_execute,
            selected_service: self.selected_service,
            view_selection: self.view_selection@,
        }
    }
}

/// The services of the category on view: read, else write, else actuation.
pub open spec fn current_list(v: SelectorView) -> Seq<ServiceRef> {
    if v.view_selection[0] {
        v.read_services
    } else if v.view_selection[1] {
        v.write_services
    } else {
        v.actuation_services
    }
}

/// Every position of a list of `n` services.
pub open spec fn all_positions(n: nat) -> Seq<usize> {
    Seq::new(n, |i: int| i as usize)
}

/// The positions among `idx` whose services match the (lowercased) query, in order.
pub open spec fn filter_positions(list: Seq<ServiceRef>, idx: Seq<usize>, q: Seq<char>) -> Seq<usize>
    decreases idx.len(),
{
    if idx.len() == 0 {
        Seq::empty()
    } else {
        let rest = filter_positions(list, idx.drop_last(), q);
        if spec_match_query(list[idx.last() as int], q) {
            rest.push(idx.last())
        } else {
            rest
        }
    }
}

/// The positions shown for a query: all of them for an empty query, else those
/// whose names contain the lowercased query.
pub open spec fn shown_for(list: Seq<ServiceRef>, idx: Seq<usize>, query: Seq<char>) -> Seq<usize> {
    if query.len() == 0 {
        idx
    } else {
        filter_positions(list, idx, lowercase(query))
    }
}

/// The picker's positions all name services of the category on view.
pub open spec fn selector_wf(v: SelectorView) -> bool {
    &&& v.view_selection.len() == 3
    &&& forall|k: int|
        0 <= k < v.shown_services.len() ==> #[trigger] v.shown_services[k] < current_list(v).len()
    &&& v.selected_service matches Some(i) ==> i < current_list(v).len()
}

pub open spec fn is_valid_pick(v: SelectorView, msg: SelectorMsg) -> bool {
    &&& msg matches SelectorMsg::PickService(i) ==> i < current_list(v).len()
    &&& msg is ExecService ==> v.selected_service is Some
}

/// Showing another category: its services, filtered by the query; the choice is dropped.
pub open spec fn spec_show_category(v: SelectorView, sel: Seq<bool>) -> SelectorView {
    let v1 = SelectorView { view_selection: sel, ..v };
    SelectorView {
        shown_services: shown_for(
            current_list(v1),
            all_positions(current_list(v1).len()),
            v.query_string,
        ),
        selected_service: None,
        can_execute: false,
        input_require: false,
        ..v1
    }
}

/// What the picker does with a message. A longer query narrows the services
/// shown so far; otherwise the whole category is searched again.
pub open spec fn spec_selector_update(v: SelectorView, msg: SelectorMsg) -> (
    SelectorView,
    SelectorAction,
) {
    match msg {
        SelectorMsg::ViewActuation => (
            spec_show_category(v, seq![false, false, true]),
            SelectorAction::Nothing,
        ),
        SelectorMsg::ViewRead => (
            spec_show_category(v, seq![true, false, false]),
            SelectorAction::Nothing,
        ),
        SelectorMsg::ViewWrite => (
            spec_show_category(v, seq![false, true, false]),
            SelectorAction::Nothing,
        ),
        SelectorMsg::Search(s) => {
            let shown = if (encode_utf8(v.query_string).len() as usize) < (encode_utf8(s@).len() as usize) {
                shown_for(current_list(v), v.shown_services, s@)
            } else {
                shown_for(current_list(v), all_positions(current_list(v).len()), s@)
            };
            (
                SelectorView { query_string: s@, shown_services: shown, ..v },
                SelectorAction::Nothing,
            )
        },
        SelectorMsg::PickService(i) => {
            let needs_input = current_list(v)[i as int].inner.input_params@.len() > 0;
            (
                SelectorView {
                    can_execute: !needs_input,
                    input_require: needs_input,
                    selected_service: Some(i),
                    ..v
                },
                SelectorAction::Nothing,
            )
        },
        SelectorMsg::StopLoopService => (
            SelectorView { is_loop: false, ..v },
            SelectorAction::Nothing,
        ),
        SelectorMsg::BeginLoopService => match v.selected_service {
            Some(i) => (SelectorView { is_loop: true, ..v }, SelectorAction::BeginLoop(i)),
            None => (v, SelectorAction::Nothing),
        },
        SelectorMsg::ExecService => (v, SelectorAction::Nothing),
        SelectorMsg::PickLoopService(_) => (v, SelectorAction::Nothing),
    }
}

pub open spec fn action_matches(a: SelectorAction, expected: SelectorAction, v: SelectorView) -> bool {
    match expected {
        SelectorAction::Nothing => a is Nothing,
        SelectorAction::BeginLoop(i) => a matches SelectorAction::BeginLoop(j) && i == j,
        SelectorAction::Execute(..) => false,
    }
}

impl ServiceSelector {
    /// A picker showing the read services, with nothing chosen.
    pub fn new(r: Vec<ServiceRef>, w: Vec<ServiceRef>, a: Vec<ServiceRef>) -> (s: ServiceSelector)
        ensures
            s@ == (SelectorView {
                read_services: r@,
                write_services: w@,
                actuation_services: a@,
                shown_services: all_positions(r@.len()),
                query_string: Seq::empty(),
                is_loop: false,
                args: Seq::empty(),
                input_require: false,
                can_execute: false,
                selected_service: None,
                view_selection: seq![true, false, false],
            }),
            selector_wf(s@),
            shows_search_result(s@),
    {
        let shown = positions(r.len());
        let s = ServiceSelector {
            read_services: r,
            write_services: w,
            actuation_services: a,
            shown_services: shown,
            query_string: String::new(),
            is_loop: false,
            args: Vec::new(),
            input_require: false,
            can_execute: false,
            selected_service: None,
            view_selection: [true, false, false],
        };
        assert(s.view_selection@ =~= seq![true, false, false]);
        s
    }

    /// The positions among `src` that the current query shows.
    pub fn get_shown_services(&self, list: &Vec<ServiceRef>, src: &Vec<usize>) -> (r: Vec<usize>)
        requires
            forall|k: int| 0 <= k < src@.len() ==> #[trigger] src@[k] < list@.len(),
        ensures
            r@ == shown_for(list@, src@, self.query_string@),
            forall|k: int| 0 <= k < r@.len() ==> #[trigger] r@[k] < list@.len(),
    {
        if self.query_string.as_str().is_empty() {
            let mut copy: Vec<usize> = Vec::new();
            let mut i: usize = 0;
            while i < src.len()
                invariant
                    i <= src@.len(),
                    copy@ =~= src@.take(i as int),
                decreases src@.len() - i,
            {
                copy.push(src[i]);
                i = i + 1;
            }
            assert(src@.take(src@.len() as int) =~= src@);
            return copy;
        }
        let lc = to_lowercase(self.query_string.as_str());
        let mut r: Vec<usize> = Vec::new();
        let mut i: usize = 0;
        while i < src.len()
            invariant
                i <= src@.len(),
                forall|k: int| 0 <= k < src@.len() ==> #[trigger] src@[k] < list@.len(),
                lc@ == lowercase(self.query_string@),
                r@ == filter_positions(list@, src@.take(i as int), lc@),
                forall|k: int| 0 <= k < r@.len() ==> #[trigger] r@[k] < list@.len(),
            decreases src@.len() - i,
        {
            let p = src[i];
            assert(src@.take(i + 1).drop_last() =~= src@.take(i as int));
            assert(src@.take(i + 1).last() == p);
            if list[p].match_query(lc.as_str()) {
                r.push(p);
            }
            i = i + 1;
        }
        assert(src@.take(src@.len() as int) =~= src@);
        r
    }

    fn current(&self) -> (r: &Vec<ServiceRef>)
        requires
            self.view_selection@.len() == 3,
        ensures
            r@ == current_list(self@),
    {
        if self.view_selection[0] {
            &self.read_services
        } else if self.view_selection[1] {
            &self.write_services
        } else {
            &self.actuation_services
        }
    }

    /// Forgets the chosen service.
    pub fn on_change_items(&mut self)
        ensures
            final(self)@ == (SelectorView {
                selected_service: None,
                can_execute: false,
                input_require: false,
                ..old(self)@
            }),
    {
        self.selected_service = None;
        self.can_execute = false;
        self.input_require = false;
    }

    fn show_category(&mut self, sel: [bool; 3])
        ensures
            final(self)@ == spec_show_category(old(self)@, sel@),
            selector_wf(final(self)@),
    {
        self.view_selection = sel;
        let all = positions(self.current().len());
        let shown = self.get_shown_services(self.current(), &all);
        self.shown_services = shown;
        self.on_change_items();
    }

    /// Handles a message.
    pub fn update(&mut self, msg: &SelectorMsg) -> (a: SelectorAction)
        requires
            selector_wf(old(self)@),
            is_valid_pick(old(self)@, *msg),
        ensures
            selector_wf(final(self)@),
            final(self)@ == spec_selector_update(old(self)@, *msg).0,
            msg is ExecService ==> (a matches SelectorAction::Execute(i, args) && old(
                self,
            )@.selected_service == Some(i) && args@ == old(self)@.args),
            !(msg is ExecService) ==> action_matches(a, spec_selector_update(old(self)@, *msg).1, old(self)@),
    {
        match msg {
            SelectorMsg::ViewActuation => {
                let sel: [bool; 3] = [false, false, true];
                assert(sel@ =~= seq![false, false, true]);
                self.show_category(sel);
                assert(self@ == spec_show_category(old(self)@, seq![false, false, true]));
                SelectorAction::Nothing
            },
            SelectorMsg::ViewRead => {
                let sel: [bool; 3] = [true, false, false];
                assert(sel@ =~= seq![true, false, false]);
                self.show_category(sel);
                assert(self@ == spec_show_category(old(self)@, seq![true, false, false]));
                SelectorAction::Nothing
            },
            SelectorMsg::ViewWrite => {
                let sel: [bool; 3] = [false, true, false];
                assert(sel@ =~= seq![false, true, false]);
                self.show_category(sel);
                assert(self@ == spec_show_category(old(self)@, seq![false, true, false]));
                SelectorAction::Nothing
            },
            SelectorMsg::Search(s) => {
                let old_len = self.query_string.as_str().len();
                assert(current_list(self@) == current_list(old(self)@));
                self.query_string = s.clone();
                assert(current_list(self@) == current_list(old(self)@));
                assert(self.shown_services@ == old(self)@.shown_services);
                assert(forall|k: int|
                    0 <= k < self.shown_services@.len() ==> #[trigger] self.shown_services@[k]
                        < current_list(self@).len());
                assert(self.query_string@ == s@);
                let new_len = self.query_string.as_str().len();
                let shown = if old_len < new_len {
                    self.get_shown_services(self.current(), &self.shown_services)
                } else {
                    let all = positions(self.current().len());
                    self.get_shown_services(self.current(), &all)
                };
                self.shown_services = shown;
                assert(self@.shown_services == spec_selector_update(old(self)@, *msg).0.shown_services);
                SelectorAction::Nothing
            },
            SelectorMsg::PickService(i) => {
                let needs_input = self.current()[*i].require_input();
                self.can_execute = !needs_input;
                self.input_require = needs_input;
                self.selected_service = Some(*i);
                SelectorAction::Nothing
            },
            SelectorMsg::StopLoopService => {
                self.is_loop = false;
                SelectorAction::Nothing
            },
            SelectorMsg::BeginLoopService => match self.selected_service {
                Some(i) => {
                    self.is_loop = true;
                    SelectorAction::BeginLoop(i)
                },
                None => SelectorAction::Nothing,
            },
            SelectorMsg::ExecService => {
                let i = self.selected_service.unwrap();
                let mut args: Vec<u8> = Vec::new();
                let mut k: usize = 0;
                while k < self.args.len()
                    invariant
                        k <= self.args@.len(),
                        args@ =~= self.args@.take(k as int),
                    decreases self.args@.len() - k,
                {
                    args.push(self.args[k]);
                    k = k + 1;
                }
                assert(self.args@.take(self.args@.len() as int) =~= self.args@);
                SelectorAction::Execute(i, args)
            },
            SelectorMsg::PickLoopService(_) => SelectorAction::Nothing,
        }
    }
}

/// The picker shows what a search of the whole category on view gives, and
/// exactly one category is on view.
pub open spec fn shows_search_result(v: SelectorView) -> bool {
    &&& v.view_selection.len() == 3
    &&& (v.view_selection[0] as int) + (v.view_selection[1] as int) + (v.view_selection[2] as int)
        == 1
    &&& v.shown_services == shown_for(
        current_list(v),
        all_positions(current_list(v).len()),
        v.query_string,
    )
}

proof fn lemma_contains_transitive(h: Seq<u8>, m: Seq<u8>, n: Seq<u8>)
    requires
        contains_bytes(h, m),
        contains_bytes(m, n),
    ensures
        contains_bytes(h, n),
{
    let i = choose|i: int| 0 <= i <= h.len() - m.len() && #[trigger] h.subrange(i, i + m.len()) == m;
    let j = choose|j: int| 0 <= j <= m.len() - n.len() && #[trigger] m.subrange(j, j + n.len()) == n;
    assert(h.subrange(i + j, i + j + n.len()) =~= n) by {
        assert forall|k: int| 0 <= k < n.len() implies h.subrange(i + j, i + j + n.len())[k] == n[k] by {
            assert(n[k] == m.subrange(j, j + n.len())[k]);
            assert(m[j + k] == h.subrange(i, i + m.len())[j + k]);
        }
    }
}

/// Narrowing the positions that match a shorter query by a longer one gives
/// the positions that match the longer one, when every match of the longer
/// query also matches the shorter.
proof fn lemma_narrowing(list: Seq<ServiceRef>, idx: Seq<usize>, short: Seq<char>, long: Seq<char>)
    requires
        forall|k: int| 0 <= k < idx.len() ==> #[trigger] idx[k] < list.len(),
        forall|p: int|
            0 <= p < list.len() && spec_match_query(#[trigger] list[p], long) ==> spec_match_query(
                list[p],
                short,
            ),
    ensures
        filter_positions(list, filter_positions(list, idx, short), long) == filter_positions(
            list,
            idx,
            long,
        ),
    decreases idx.len(),
{
    if idx.len() > 0 {
        let rest = idx.drop_last();
        let p = idx.last();
        assert(idx[idx.len() - 1] < list.len());
        lemma_narrowing(list, rest, short, long);
        let fs = filter_positions(list, rest, short);
        if spec_match_query(list[p as int], short) {
            assert(fs.push(p).drop_last() =~= fs);
            assert(fs.push(p).last() == p);
        }
    }
}

/// When the old query begins the new one and both are ASCII, the lowercased
/// new query contains the lowercased old one, as the search law asks (the
/// lowercasing of both queries as `to_lowercase` reports it for ASCII text).
pub proof fn lemma_ascii_prefix_narrows(old: Seq<char>, new: Seq<char>)
    requires
        is_ascii_chars(new),
        old.len() <= new.len(),
        old == new.take(old.len() as int),
        lowercase(old) == ascii_lowercase(old),
        lowercase(new) == ascii_lowercase(new),
    ensures
        contains_bytes(encode_utf8(lowercase(new)), encode_utf8(lowercase(old))),
{
    let lo = ascii_lowercase(old);
    let ln = ascii_lowercase(new);
    assert(is_ascii_chars(old)) by {
        assert forall|i: int| 0 <= i < old.len() implies '\0' <= #[trigger] old[i] <= '\u{7f}' by {
            assert(old[i] == new[i]);
        }
    }
    assert(is_ascii_chars(ln)) by {
        assert forall|i: int| 0 <= i < ln.len() implies '\0' <= #[trigger] ln[i] <= '\u{7f}' by {
            assert(new[i] <= '\u{7f}');
        }
    }
    assert(is_ascii_chars(lo)) by {
        assert forall|i: int| 0 <= i < lo.len() implies '\0' <= #[trigger] lo[i] <= '\u{7f}' by {
            assert(old[i] <= '\u{7f}');
        }
    }
    is_ascii_chars_encode_utf8(ln);
    is_ascii_chars_encode_utf8(lo);
    let bn = encode_utf8(ln);
    let bo = encode_utf8(lo);
    assert(bn.subrange(0, bo.len() as int) =~= bo) by {
        assert forall|i: int| 0 <= i < bo.len() implies bn.subrange(0, bo.len() as int)[i] == bo[i] by {
            assert(lo[i] == ln[i]) by {
                assert(old[i] == new[i]);
            }
            assert(bo[i] == lo[i] as u8);
            assert(bn[i] == ln[i] as u8);
        }
    }
    assert(bn.subrange(0, 0int + bo.len()) == bo);
}

/// Whatever the picker is asked, it keeps showing the result of a search of
/// the whole category on view, with one category on view. A query that is
/// not longer searches the whole category again; a longer query only narrows
/// the services shown so far, which gives the same result where the
/// lowercased new query contains the lowercased old one (as when the old
/// query begins the new one, see `lemma_ascii_prefix_narrows`).
pub proof fn law_selector_shows_search_result(v: SelectorView, msg: SelectorMsg)
    requires
        selector_wf(v),
        shows_search_result(v),
        is_valid_pick(v, msg),
        msg matches SelectorMsg::Search(s) ==> (encode_utf8(v.query_string).len() as usize) < (
        encode_utf8(s@).len() as usize) && v.query_string.len() > 0 ==> contains_bytes(
            encode_utf8(lowercase(s@)),
            encode_utf8(lowercase(v.query_string)),
        ),
    ensures
        shows_search_result(spec_selector_update(v, msg).0),
{
    let list = current_list(v);
    let all = all_positions(list.len());
    match msg {
        SelectorMsg::Search(s) => {
            let narrow = (encode_utf8(v.query_string).len() as usize) < (encode_utf8(s@).len() as usize);
            if narrow && s@.len() > 0 && v.query_string.len() > 0 {
                let lo = lowercase(v.query_string);
                let ls = lowercase(s@);
                assert forall|p: int|
                    0 <= p < list.len() && spec_match_query(#[trigger] list[p], ls) implies spec_match_query(
                    list[p],
                    lo,
                ) by {
                    lemma_contains_transitive(
                        encode_utf8(lowercase(list[p].inner.name@)),
                        encode_utf8(ls),
                        encode_utf8(lo),
                    );
                }
                lemma_narrowing(list, all, lo, ls);
            }
        },
        _ => {},
    }
}

/// The positions `0..n`.
fn positions(n: usize) -> (r: Vec<usize>)
    ensures
        r@ == all_positions(n as nat),
{
    let mut r: Vec<usize> = Vec::new();
    let mut i: usize = 0;
    while i < n
        invariant
            i <= n,
            r@ =~= all_positions(i as nat),
        decreases n - i,
    {
        r.push(i);
        i = i + 1;
    }
    r
}

/// The picker entries for a list of services, in order.
pub fn service_refs(services: &Vec<Service>) -> (r: Vec<ServiceRef>)
    ensures
        r@.len() == services@.len(),
        forall|i: int| 0 <= i < r@.len() ==> same_service((#[trigger] r@[i]).inner, services@[i]),
{
    let mut r: Vec<ServiceRef> = Vec::new();
    let mut i: usize = 0;
    while i < services.len()
        invariant
            i <= services@.len(),
            r@.len() == i,
            forall|k: int| 0 <= k < i ==> same_service((#[trigger] r@[k]).inner, services@[k]),
        decreases services@.len() - i,
    {
        r.push(ServiceRef { inner: services[i].clone() });
        i = i + 1;
    }
    r
}

/// A fresh picker of a variant: its downloads are the read services, its
/// functions the write services, there are no actuations; the read services
/// are all shown, with no query, no choice, no loop and no arguments.
pub open spec fn fresh_selector_for(s: SelectorView, variant: ECUVariantDefinition) -> bool {
    &&& selector_wf(s)
    &&& s.read_services.len() == variant.downloads@.len()
    &&& forall|i: int|
        0 <= i < s.read_services.len() ==> same_service(
            (#[trigger] s.read_services[i]).inner,
            variant.downloads@[i],
        )
    &&& s.write_services.len() == variant.functions@.len()
    &&& forall|i: int|
        0 <= i < s.write_services.len() ==> same_service(
            (#[trigger] s.write_services[i]).inner,
            variant.functions@[i],
        )
    &&& s.actuation_services.len() == 0
    &&& s.shown_services == all_positions(variant.downloads@.len())
    &&& s.query_string.len() == 0
    &&& s.selected_service is None
    &&& !s.is_loop
    &&& s.args.len() == 0
    &&& !s.input_require
    &&& !s.can_execute
    &&& s.view_selection == seq![true, false, false]
}

/// The picker of a variant: its downloads are read services, its functions
/// write services, and there are no actuations.
pub fn service_selector_for_variant(variant: &ECUVariantDefinition) -> (s: ServiceSelector)
    ensures
        fresh_selector_for(s@, *variant),
{
    let read = service_refs(&variant.downloads);
    let write = service_refs(&variant.functions);
    ServiceSelector::new(read, write, Vec::new())
}

/// One decoded output value: its parameter name and its text, or why it
/// could not be decoded.
pub open spec fn output_line(name: Seq<char>, value: Result<String, String>) -> Seq<char> {
    match value {
        Ok(v) => name + ": "@ + v@,
        Err(e) => "Error decoding "@ + name + ": "@ + e@,
    }
}

/// The lines of the decoded outputs, one per output, separated by newlines.
pub open spec fn output_lines(outputs: Seq<(String, Result<String, String>)>) -> Seq<char>
    decreases outputs.len(),
{
    if outputs.len() == 0 {
        Seq::empty()
    } else if outputs.len() == 1 {
        output_line(outputs[0].0@, outputs[0].1)
    } else {
        output_lines(outputs.drop_last()) + "\n"@ + output_line(
            outputs.last().0@,
            outputs.last().1,
        )
    }
}

/// The text of a service's reply: "OK" when it has no outputs, else one line
/// per output.
pub fn args_to_string(outputs: &Vec<(String, Result<String, String>)>) -> (r: String)
    ensures
        outputs@.len() == 0 ==> r@ == "OK"@,
        outputs@.len() > 0 ==> r@ == output_lines(outputs@),
{
    if outputs.len() == 0 {
        return String::from_str("OK");
    }
    let mut r = String::new();
    let mut i: usize = 0;
    while i < outputs.len()
        invariant
            i <= outputs@.len(),
            r@ == output_lines(outputs@.take(i as int)),
        decreases outputs@.len() - i,
    {
        let ghost before = r@;
        assert(outputs@.take(i + 1).drop_last() =~= outputs@.take(i as int));
        assert(outputs@.take(i + 1).last() == outputs@[i as int]);
        if i > 0 {
            r.append("\n");
        }
        let (name, value) = &outputs[i];
        match value {
            Ok(v) => {
                r.append(name.as_str());
                r.append(": ");
                r.append(v.as_str());
            },
            Err(e) => {
                r.append("Error decoding ");
                r.append(name.as_str());
                r.append(": ");
                r.append(e.as_str());
            },
        }
        proof {
            if i == 0 {
                assert(outputs@.take(1).len() == 1);
                assert(r@ =~= output_lines(outputs@.take(1)));
            } else {
                assert(r@ =~= output_lines(outputs@.take(i + 1)));
            }
        }
        i = i + 1;
    }
    assert(outputs@.take(outputs@.len() as int) =~= outputs@);
    r
}

/// The controls under the chosen service.
#[derive(Clone, Copy, Debug, PartialEq, Eq, Structural)]
pub struct SelectorControls {
    /// A button that runs the service.
    pub execute: bool,
    /// A button that starts reading the service in a loop.
    pub begin_loop: bool,
    /// A button that stops the loop.
    pub stop_loop: bool,
}

impl ServiceSelector {
    /// The controls shown for the chosen service: while looping only "stop";
    /// otherwise "run" for a service without inputs, and "loop" where that
    /// agrees with the read view (a read service without inputs, or a service
    /// with inputs outside the read view).
    pub fn controls(&self) -> (c: SelectorControls)
        requires
            self.view_selection@.len() == 3,
        ensures
            self.selected_service is None ==> !c.execute && !c.begin_loop && !c.stop_loop,
            self.selected_service is Some ==> c == (SelectorControls {
                execute: !self.is_loop && self.can_execute,
                begin_loop: !self.is_loop && self.can_execute == self.view_selection@[0],
                stop_loop: self.is_loop,
            }),
    {
        if self.selected_service.is_none() {
            return SelectorControls { execute: false, begin_loop: false, stop_loop: false };
        }
        SelectorControls {
            execute: !self.is_loop && self.can_execute,
            begin_loop: !self.is_loop && self.can_execute == self.view_selection[0],
            stop_loop: self.is_loop,
        }
    }

    /// The first word of the "run" button: after the category on view.
    pub fn execute_prefix(&self) -> (r: &'static str)
        requires
            self.view_selection@.len() == 3,
        ensures
            self.view_selection@[0] ==> r@ == "Read "@,
            !self.view_selection@[0] && self.view_selection@[1] ==> r@ == "Write "@,
            !self.view_selection@[0] && !self.view_selection@[1] ==> r@ == "Actuate "@,
    {
        if self.view_selection[0] {
            "Read "
        } else if self.view_selection[1] {
            "Write "
        } else {
            "Actuate "
        }
    }
}

} // verus!


