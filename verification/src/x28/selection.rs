//! X.28 selections: whom to call, with which facilities and call user data.
//!
//! A selection is written as facilities, a hyphen, addresses and call user
//! data: `R,Ncisc-12345,.name*data`. The facilities with their hyphen and
//! the call user data with its separator may be left out.

use crate::text::{find, first_of, lemma_first_of, to_chars};
use crate::x121::{char_digit, x121_text_error, x121_text_valid, X121Addr};
use vstd::prelude::*;
use vstd::string::*;

verus! {

/// An address of a selection.
#[derive(PartialEq, Debug)]
pub enum X28Addr {
    /// A full X.121 address.
    Full(X121Addr),
    /// An abbreviated address: a name written behind a full stop.
    Abbrev(String),
}

pub ghost enum X28AddrView {
    Full(Seq<u8>),
    Abbrev(Seq<char>),
}

impl View for X28Addr {
    type V = X28AddrView;

    open spec fn view(&self) -> X28AddrView {
        match self {
            X28Addr::Full(addr) => X28AddrView::Full(addr@),
            X28Addr::Abbrev(name) => X28AddrView::Abbrev(name@),
        }
    }
}

impl Clone for X28Addr {
    fn clone(&self) -> (copy: Self)
        ensures
            copy@ == self@,
    {
        match self {
            X28Addr::Full(addr) => X28Addr::Full(addr.clone()),
            X28Addr::Abbrev(name) => X28Addr::Abbrev(name.clone()),
        }
    }
}

/// An X.28 selection.
#[derive(PartialEq, Debug)]
pub struct X28Selection {
    pub addrs: Vec<X28Addr>,
    /// Each facility: its code and its value.
    pub facilities: Vec<(char, String)>,
    pub call_user_data: String,
}

pub ghost struct X28SelectionView {
    pub addrs: Seq<X28AddrView>,
    pub facilities: Seq<(char, Seq<char>)>,
    pub call_user_data: Seq<char>,
}

pub open spec fn addr_views(addrs: Seq<X28Addr>) -> Seq<X28AddrView> {
    addrs.map_values(|a: X28Addr| a@)
}

pub open spec fn facility_views(facilities: Seq<(char, String)>) -> Seq<(char, Seq<char>)> {
    facilities.map_values(|f: (char, String)| (f.0, f.1@))
}

impl Clone for X28Selection {
    fn clone(&self) -> (copy: Self)
        ensures
            copy@ == self@,
    {
        let mut addrs: Vec<X28Addr> = Vec::new();
        let mut i: usize = 0;
        while i < self.addrs.len()
            invariant
                i <= self.addrs.len(),
                addr_views(addrs@) == addr_views(self.addrs@).take(i as int),
            decreases self.addrs.len() - i,
        {
            let ghost before = addrs@;
            let addr = self.addrs[i].clone();
            addrs.push(addr);
            proof {
                assert(addr_views(addrs@) =~= addr_views(before).push(addr@));
                assert(addr_views(self.addrs@)[i as int] == addr@);
                assert(addr_views(addrs@) =~= addr_views(self.addrs@).take(i as int + 1));
            }
            i += 1;
        }
        let mut facilities: Vec<(char, String)> = Vec::new();
        let mut k: usize = 0;
        while k < self.facilities.len()
            invariant
                k <= self.facilities.len(),
                addr_views(addrs@) == addr_views(self.addrs@).take(self.addrs.len() as int),
                facility_views(facilities@) == facility_views(self.facilities@).take(k as int),
            decreases self.facilities.len() - k,
        {
            let ghost before = facilities@;
            let code: char = self.facilities[k].0;
            let value = self.facilities[k].1.clone();
            let ghost facility = (code, value@);
            facilities.push((code, value));
            proof {
                assert(facility_views(facilities@) =~= facility_views(before).push(facility));
                assert(facility_views(self.facilities@)[k as int] == facility);
                assert(facility_views(facilities@) =~= facility_views(self.facilities@).take(
                    k as int + 1,
                ));
            }
            k += 1;
        }
        proof {
            assert(addr_views(self.addrs@).take(self.addrs.len() as int) =~= addr_views(
                self.addrs@,
            ));
            assert(facility_views(self.facilities@).take(self.facilities.len() as int)
                =~= facility_views(self.facilities@));
        }
        X28Selection { addrs, facilities, call_user_data: self.call_user_data.clone() }
    }
}

impl View for X28Selection {
    type V = X28SelectionView;

    open spec fn view(&self) -> X28SelectionView {
        X28SelectionView {
            addrs: addr_views(self.addrs@),
            facilities: facility_views(self.facilities@),
            call_user_data: self.call_user_data@,
        }
    }
}

/// The characters that end a facility.
pub open spec fn facility_stops() -> Seq<char> {
    seq![',', '-']
}

/// The characters that end an address. The letters that may stand in front
/// of call user data end one only as long as no abbreviated address was
/// seen, for such an address may hold them.
pub open spec fn addr_stops(has_abbrev: bool) -> Seq<char> {
    if has_abbrev {
        seq![',', '*']
    } else {
        seq![',', '*', 'P', 'D']
    }
}

/// The facilities in front of the first hyphen, and the text from that
/// hyphen on. Facilities are separated by commas; the first character of
/// one is its code and the rest its value; an empty one is passed over.
pub open spec fn facility_items(s: Seq<char>) -> (Seq<(char, Seq<char>)>, Seq<char>)
    decreases s.len(),
    via facility_items_decreases
{
    if s.len() == 0 {
        (Seq::empty(), s)
    } else {
        let end = first_of(s, facility_stops());
        let item = s.take(end);
        let after = s.skip(end);
        let found = if item.len() > 0 {
            seq![(item[0], item.skip(1))]
        } else {
            Seq::empty()
        };
        if after.len() > 0 && after[0] == ',' {
            let more = facility_items(after.skip(1));
            (found + more.0, more.1)
        } else {
            (found, after)
        }
    }
}

#[via_fn]
proof fn facility_items_decreases(s: Seq<char>) {
    lemma_first_of(s, facility_stops());
}

/// In a text that holds a hyphen the facilities end at a hyphen.
pub proof fn lemma_facilities_end_at_hyphen(s: Seq<char>)
    requires
        s.contains('-'),
    ensures
        facility_items(s).1.len() > 0,
        facility_items(s).1[0] == '-',
    decreases s.len(),
{
    let end = first_of(s, facility_stops());
    let after = s.skip(end);
    lemma_first_of(s, facility_stops());
    let at = choose|i: int| 0 <= i < s.len() && s[i] == '-';
    assert(facility_stops().contains('-')) by {
        assert(facility_stops()[1] == '-');
    }
    if end > at {
        assert(!facility_stops().contains(s[at]));
    }
    assert(end < s.len());
    assert(after[0] == s[end]);
    if after[0] == ',' {
        assert(at > end);
        assert(after.skip(1)[at - end - 1] == s[at]);
        lemma_facilities_end_at_hyphen(after.skip(1));
    } else {
        assert(facility_stops().contains(after[0]));
        let k = choose|k: int| 0 <= k < facility_stops().len() && facility_stops()[k] == after[0];
        assert(k == 0 || k == 1);
    }
}

/// The facilities of a selection and the text behind them. A selection
/// that starts with a full stop or holds no hyphen has no facilities.
pub open spec fn spec_parse_facilities(s: Seq<char>) -> (Seq<(char, Seq<char>)>, Seq<char>) {
    if (s.len() > 0 && s[0] == '.') || !s.contains('-') {
        (Seq::empty(), s)
    } else {
        (facility_items(s).0, facility_items(s).1.skip(1))
    }
}

/// What was read of the addresses of a selection.
pub ghost struct AddrItems {
    pub addrs: Seq<X28AddrView>,
    /// Whether an abbreviated address was among them.
    pub has_abbrev: bool,
    /// The text behind the addresses.
    pub rest: Seq<char>,
}

/// The address that `text` writes: an abbreviated one behind a full stop,
/// else a full one. Nothing for an empty text, an error for a full address
/// that is not made of up to 15 digits.
pub open spec fn addr_item(text: Seq<char>, is_abbrev: bool) -> Result<
    Seq<X28AddrView>,
    Seq<char>,
> {
    if text.len() == 0 {
        Ok(Seq::empty())
    } else if is_abbrev {
        Ok(seq![X28AddrView::Abbrev(text)])
    } else if x121_text_valid(text) {
        Ok(seq![X28AddrView::Full(text.map_values(|c: char| char_digit(c)))])
    } else {
        Err(x121_text_error(text))
    }
}

/// The addresses at the front of `s`, separated by commas, and the text
/// behind them, or the error of the first address that is none.
pub open spec fn addr_items(s: Seq<char>, has_abbrev: bool) -> Result<AddrItems, Seq<char>>
    decreases s.len(),
    via addr_items_decreases
{
    if s.len() == 0 {
        Ok(AddrItems { addrs: Seq::empty(), has_abbrev, rest: s })
    } else {
        let is_abbrev = s[0] == '.';
        let abbrev = has_abbrev || is_abbrev;
        let end = first_of(s, addr_stops(abbrev));
        let text = if is_abbrev {
            s.take(end).skip(1)
        } else {
            s.take(end)
        };
        let after = s.skip(end);
        match addr_item(text, is_abbrev) {
            Err(err) => Err(err),
            Ok(found) => if after.len() > 0 && after[0] == ',' {
                match addr_items(after.skip(1), abbrev) {
                    Err(err) => Err(err),
                    Ok(more) => Ok(
                        AddrItems {
                            addrs: found + more.addrs,
                            has_abbrev: more.has_abbrev,
                            rest: more.rest,
                        },
                    ),
                }
            } else {
                Ok(AddrItems { addrs: found, has_abbrev: abbrev, rest: after })
            },
        }
    }
}

#[via_fn]
proof fn addr_items_decreases(s: Seq<char>, has_abbrev: bool) {
    lemma_first_of(s, addr_stops(has_abbrev || s[0] == '.'));
}

/// Whether `c` may stand between the addresses and the call user data.
pub open spec fn is_data_separator(c: char, has_abbrev: bool) -> bool {
    c == '*' || (!has_abbrev && (c == 'P' || c == 'D'))
}

/// The addresses of a selection and its call user data. An error where an
/// address is not valid, where there is no address, or where the call user
/// data has no separator in front.
pub open spec fn spec_parse_addrs(s: Seq<char>) -> Result<
    (Seq<X28AddrView>, Seq<char>),
    Seq<char>,
> {
    match addr_items(s, false) {
        Err(err) => Err(err),
        Ok(items) => if items.addrs.len() == 0 {
            Err("at least one address is required"@)
        } else if items.rest.len() == 0 {
            Ok((items.addrs, items.rest))
        } else if is_data_separator(items.rest[0], items.has_abbrev) {
            Ok((items.addrs, items.rest.skip(1)))
        } else {
            Err("invalid call user data separator"@)
        },
    }
}

/// The selection that `s` writes, or why it writes none.
pub open spec fn spec_selection(s: Seq<char>) -> Result<X28SelectionView, Seq<char>> {
    if s.len() == 0 {
        Err("empty selection"@)
    } else {
        match spec_parse_addrs(spec_parse_facilities(s).1) {
            Err(err) => Err(err),
            Ok((addrs, call_user_data)) => Ok(
                X28SelectionView {
                    addrs,
                    facilities: spec_parse_facilities(s).0,
                    call_user_data,
                },
            ),
        }
    }
}

/// The text `s[from..to]` as a string of its own.
fn piece(s: &str, from: usize, to: usize) -> (text: String)
    requires
        from <= to <= s@.len(),
    ensures
        text@ == s@.subrange(from as int, to as int),
{
    s.substring_char(from, to).to_owned()
}

/// Whether `chars` holds a hyphen.
fn has_hyphen(chars: &[char]) -> (found: bool)
    ensures
        found == chars@.contains('-'),
{
    let mut i: usize = 0;
    while i < chars.len()
        invariant
            i <= chars.len(),
            forall|k: int| 0 <= k < i ==> chars@[k] != '-',
        decreases chars.len() - i,
    {
        if chars[i] == '-' {
            return true;
        }
        i += 1;
    }
    false
}

/// Reads the facility at the front of an item: its code and its value.
pub fn parse_facility(s: &str, from: usize, to: usize) -> (facility: (char, String))
    requires
        from < to <= s@.len(),
    ensures
        facility.0 == s@[from as int],
        facility.1@ == s@.subrange(from as int + 1, to as int),
{
    (s.get_char(from), piece(s, from + 1, to))
}

/// Reads the facilities of a selection. Returns them and where the text
/// behind them starts.
pub fn parse_facilities(s: &str, chars: &[char]) -> (result: (Vec<(char, String)>, usize))
    requires
        chars@ == s@,
    ensures
        facility_views(result.0@) == spec_parse_facilities(s@).0,
        result.1 <= s@.len(),
        s@.skip(result.1 as int) == spec_parse_facilities(s@).1,
{
    let mut facilities: Vec<(char, String)> = Vec::new();
    let n: usize = chars.len();
    proof {
        assert(facility_views(facilities@) =~= Seq::empty());
        assert(s@.skip(0) =~= s@);
    }
    if (n > 0 && chars[0] == '.') || !has_hyphen(chars) {
        return (facilities, 0);
    }
    let stops: [char; 2] = [',', '-'];
    proof {
        assert(stops@ =~= facility_stops());
    }
    let mut pos: usize = 0;
    let mut done = false;
    while !done
        invariant
            pos <= n,
            n == chars@.len(),
            chars@ == s@,
            stops@ == facility_stops(),
            !done ==> facility_items(s@) == (
                facility_views(facilities@) + facility_items(s@.skip(pos as int)).0,
                facility_items(s@.skip(pos as int)).1,
            ),
            done ==> facility_items(s@) == (facility_views(facilities@), s@.skip(pos as int)),
        decreases n - pos, if done { 0int } else { 1int },
    {
        let ghost rest = s@.skip(pos as int);
        let ghost found_before = facility_views(facilities@);
        if pos == n {
            proof {
                assert(found_before + Seq::<(char, Seq<char>)>::empty() =~= found_before);
            }
            done = true;
        } else {
            proof {
                assert(chars@.subrange(pos as int, n as int) =~= rest);
                lemma_first_of(rest, facility_stops());
            }
            let end: usize = find(chars, pos, n, stops.as_slice());
            let ghost item = rest.take(end - pos);
            let ghost after = rest.skip(end - pos);
            proof {
                assert(after =~= s@.skip(end as int));
                assert(item =~= s@.subrange(pos as int, end as int));
            }
            if end > pos {
                let ghost before = facilities@;
                let facility = parse_facility(s, pos, end);
                facilities.push(facility);
                proof {
                    assert(item[0] == s@[pos as int]);
                    assert(item.skip(1) =~= s@.subrange(pos as int + 1, end as int));
                    assert(facility_views(facilities@) =~= found_before + seq![
                        (item[0], item.skip(1)),
                    ]);
                }
            } else {
                proof {
                    assert(facility_views(facilities@) =~= found_before + Seq::<
                        (char, Seq<char>),
                    >::empty());
                }
            }
            if end < n && chars[end] == ',' {
                proof {
                    assert(after[0] == ',');
                    assert(after.skip(1) =~= s@.skip(end as int + 1));
                    let more = facility_items(after.skip(1));
                    let found = if item.len() > 0 {
                        seq![(item[0], item.skip(1))]
                    } else {
                        Seq::empty()
                    };
                    assert(found_before + (found + more.0) =~= facility_views(facilities@)
                        + more.0);
                }
                pos = end + 1;
            } else {
                proof {
                    if end < n {
                        assert(after[0] == chars@[end as int]);
                    }
                }
                pos = end;
                done = true;
            }
        }
    }
    proof {
        lemma_facilities_end_at_hyphen(s@);
        assert(s@.skip(pos as int).skip(1) =~= s@.skip(pos as int + 1));
    }
    (facilities, pos + 1)
}

/// Reads the addresses of a selection from `s[from..]` on. Returns them
/// and the call user data.
pub fn parse_addrs(s: &str, chars: &[char], from: usize) -> (result: Result<
    (Vec<X28Addr>, String),
    String,
>)
    requires
        chars@ == s@,
        from <= s@.len(),
    ensures
        match spec_parse_addrs(s@.skip(from as int)) {
            Ok((addrs, call_user_data)) => {
                &&& result is Ok
                &&& addr_views((result->Ok_0).0@) == addrs
                &&& (result->Ok_0).1@ == call_user_data
            },
            Err(message) => result is Err && result->Err_0@ == message,
        },
{
    let mut addrs: Vec<X28Addr> = Vec::new();
    let mut has_abbrev = false;
    let n: usize = chars.len();
    let wide: [char; 4] = [',', '*', 'P', 'D'];
    let narrow: [char; 2] = [',', '*'];
    proof {
        assert(wide@ =~= addr_stops(false));
        assert(narrow@ =~= addr_stops(true));
        assert(addr_views(addrs@) =~= Seq::empty());
    }
    let ghost all = s@.skip(from as int);
    let mut pos: usize = from;
    let mut done = false;
    while !done
        invariant
            from <= pos <= n,
            n == chars@.len(),
            chars@ == s@,
            all == s@.skip(from as int),
            wide@ == addr_stops(false),
            narrow@ == addr_stops(true),
            !done ==> addr_items(all, false) == match addr_items(s@.skip(pos as int), has_abbrev) {
                Err(err) => Err(err),
                Ok(more) => Ok(
                    AddrItems {
                        addrs: addr_views(addrs@) + more.addrs,
                        has_abbrev: more.has_abbrev,
                        rest: more.rest,
                    },
                ),
            },
            done ==> addr_items(all, false) == Ok::<AddrItems, Seq<char>>(
                AddrItems { addrs: addr_views(addrs@), has_abbrev, rest: s@.skip(pos as int) },
            ),
        decreases n - pos, if done { 0int } else { 1int },
    {
        let ghost rest = s@.skip(pos as int);
        let ghost found_before = addr_views(addrs@);
        if pos == n {
            proof {
                assert(found_before + Seq::<X28AddrView>::empty() =~= found_before);
            }
            done = true;
        } else {
            let is_abbrev: bool = chars[pos] == '.';
            let abbrev: bool = has_abbrev || is_abbrev;
            proof {
                assert(rest[0] == chars@[pos as int]);
                assert(chars@.subrange(pos as int, n as int) =~= rest);
                lemma_first_of(rest, addr_stops(abbrev));
            }
            let end: usize = if abbrev {
                find(chars, pos, n, narrow.as_slice())
            } else {
                find(chars, pos, n, wide.as_slice())
            };
            proof {
                if is_abbrev {
                    assert(!addr_stops(abbrev).contains('.'));
                    assert(end > pos);
                }
            }
            let start: usize = if is_abbrev {
                pos + 1
            } else {
                pos
            };
            let ghost text = s@.subrange(start as int, end as int);
            let ghost after = rest.skip(end - pos);
            proof {
                assert(after =~= s@.skip(end as int));
                if is_abbrev {
                    assert(rest.take(end - pos).skip(1) =~= text);
                } else {
                    assert(rest.take(end - pos) =~= text);
                }
            }
            if end > start {
                if is_abbrev {
                    let name = piece(s, start, end);
                    addrs.push(X28Addr::Abbrev(name));
                    proof {
                        assert(addr_views(addrs@) =~= found_before + seq![
                            X28AddrView::Abbrev(text),
                        ]);
                    }
                } else {
                    match X121Addr::parse(s.substring_char(start, end)) {
                        Ok(addr) => {
                            addrs.push(X28Addr::Full(addr));
                            proof {
                                assert(addr_views(addrs@) =~= found_before + seq![
                                    X28AddrView::Full(text.map_values(|c: char| char_digit(c))),
                                ]);
                            }
                        },
                        Err(err) => {
                            return Err(err);
                        },
                    }
                }
            } else {
                proof {
                    assert(addr_views(addrs@) =~= found_before + Seq::<X28AddrView>::empty());
                }
            }
            has_abbrev = abbrev;
            if end < n && chars[end] == ',' {
                proof {
                    assert(after[0] == ',');
                    assert(after.skip(1) =~= s@.skip(end as int + 1));
                    match addr_items(after.skip(1), abbrev) {
                        Ok(more) => {
                            let found = addr_item(text, is_abbrev)->Ok_0;
                            assert(found_before + (found + more.addrs) =~= addr_views(addrs@)
                                + more.addrs);
                        },
                        Err(_) => {},
                    }
                }
                pos = end + 1;
            } else {
                proof {
                    if end < n {
                        assert(after[0] == chars@[end as int]);
                    }
                }
                pos = end;
                done = true;
            }
        }
    }
    if addrs.len() == 0 {
        return Err("at least one address is required".to_owned());
    }
    if pos == n {
        return Ok((addrs, piece(s, n, n)));
    }
    let separator: char = chars[pos];
    proof {
        assert(s@.skip(pos as int)[0] == separator);
        assert(s@.skip(pos as int).skip(1) =~= s@.subrange(pos as int + 1, n as int));
    }
    if separator == '*' || (!has_abbrev && (separator == 'P' || separator == 'D')) {
        Ok((addrs, piece(s, pos + 1, n)))
    } else {
        Err("invalid call user data separator".to_owned())
    }
}

impl X28Selection {
    /// Reads a selection. Succeeds exactly on the texts that write one.
    pub fn parse(s: &str) -> (result: Result<X28Selection, String>)
        ensures
            match spec_selection(s@) {
                Ok(selection) => result is Ok && result->Ok_0@ == selection,
                Err(message) => result is Err && result->Err_0@ == message,
            },
    {
        let chars = to_chars(s);
        if chars.len() == 0 {
            return Err("empty selection".to_owned());
        }
        let (facilities, start) = parse_facilities(s, chars.as_slice());
        match parse_addrs(s, chars.as_slice(), start) {
            Ok((addrs, call_user_data)) => Ok(X28Selection { addrs, facilities, call_user_data }),
            Err(err) => Err(err),
        }
    }
}

impl core::str::FromStr for X28Selection {
    type Err = String;

    /// Reads a selection, as [`X28Selection::parse`] does: succeeds exactly
    /// on the texts that write one, and says why another writes none.
    fn from_str(s: &str) -> (result: Result<X28Selection, String>)
        ensures
            match spec_selection(s@) {
                Ok(selection) => result is Ok && result->Ok_0@ == selection,
                Err(message) => result is Err && result->Err_0@ == message,
            },
    {
        X28Selection::parse(s)
    }
}

} // verus!
