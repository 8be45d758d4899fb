//! The list of capture interfaces: building it, printing it, and choosing
//! one by number or by name.

use vstd::prelude::*;

use crate::net::IpAddress;
use crate::text::{
    all_digits, chars_of, decimal, decimal_string, digits_value, is_ascii_digit, is_white_space,
    is_white_space_exec, string_from_chars, unsigned_digits,
};

verus! {

/// A capture device as the capture library lists it.
#[derive(Debug)]
pub struct DeviceSummary {
    pub name: String,
    pub description: Option<String>,
    pub addresses: Vec<IpAddress>,
}

/// An interface the user can choose.
#[derive(Debug)]
pub struct InterfaceInfo {
    pub name: String,
    pub description: String,
    pub is_default_route: bool,
}

pub open spec fn no_description() -> Seq<char> {
    "No description"@
}

pub open spec fn default_opt(d: Option<&str>) -> Option<Seq<char>> {
    match d {
        Some(s) => Some(s@),
        None => None,
    }
}

/// The catalog entry of a device: its name, its description ("No
/// description" when it has none), and whether it is the default-route one.
pub open spec fn catalog_entry_ok(info: InterfaceInfo, dev: DeviceSummary, default: Option<Seq<char>>) -> bool {
    &&& info.name@ == dev.name@
    &&& info.description@ == match dev.description {
        Some(d) => d@,
        None => no_description(),
    }
    &&& info.is_default_route == (default == Some(dev.name@))
}

/// The interface catalog of the listed devices, in order, marking the
/// device named `default` (the default-route interface).
pub fn interface_catalog_from_devices(devices: &Vec<DeviceSummary>, default: Option<&str>) -> (r: Vec<
    InterfaceInfo,
>)
    ensures
        r@.len() == devices@.len(),
        forall|i: int|
            0 <= i < devices@.len() ==> catalog_entry_ok(
                #[trigger] r@[i],
                devices@[i],
                default_opt(default),
            ),
{
    let mut out: Vec<InterfaceInfo> = Vec::new();
    let mut i: usize = 0;
    while i < devices.len()
        invariant
            i <= devices@.len(),
            out@.len() == i,
            forall|k: int|
                0 <= k < i ==> catalog_entry_ok(#[trigger] out@[k], devices@[k], default_opt(default)),
        decreases devices@.len() - i,
    {
        let dev = &devices[i];
        let is_default = match default {
            Some(d) => {
                let dn = String::from_str(d);
                dn == dev.name
            },
            None => false,
        };
        let description = match &dev.description {
            Some(d) => d.clone(),
            None => String::from_str("No description"),
        };
        out.push(InterfaceInfo { name: dev.name.clone(), description, is_default_route: is_default });
        i += 1;
    }
    out
}

/// The two lines that list interface number `number`.
pub open spec fn interface_lines(number: nat, info: InterfaceInfo) -> Seq<char> {
    "  "@ + decimal(number) + ". "@ + info.description@ + (if info.is_default_route {
        "  [default route]"@
    } else {
        Seq::empty()
    }) + "\n     Name: "@ + info.name@ + "\n"@
}

/// The lines of interfaces `0..n`, numbered from 1.
pub open spec fn interface_block(interfaces: Seq<InterfaceInfo>, n: nat) -> Seq<char>
    decreases n,
{
    if n == 0 {
        Seq::empty()
    } else {
        interface_block(interfaces, (n - 1) as nat) + interface_lines(
            n,
            interfaces[n - 1],
        )
    }
}

pub open spec fn spec_interface_list(interfaces: Seq<InterfaceInfo>) -> Seq<char> {
    "Available interfaces:\n"@ + interface_block(interfaces, interfaces.len())
        + "\nUsage: delray <interface-or-number> [OPTIONS]\n"@
        + "Run delray --help for full usage\n"@
}

/// The interface listing shown when no interface was given: each interface
/// numbered from 1 with its description, a marker on the default-route one,
/// and its full name; then a usage hint.
pub fn format_interface_list(interfaces: &[InterfaceInfo]) -> (r: String)
    ensures
        r@ == spec_interface_list(interfaces@),
{
    let mut output = String::from_str("Available interfaces:\n");
    let mut i: usize = 0;
    while i < interfaces.len()
        invariant
            i <= interfaces@.len(),
            output@ == "Available interfaces:\n"@ + interface_block(interfaces@, i as nat),
        decreases interfaces@.len() - i,
    {
        let info = &interfaces[i];
        let number = decimal_string((i + 1) as u64);
        let mut line = String::from_str("  ");
        line.append(number.as_str());
        line.append(". ");
        line.append(info.description.as_str());
        if info.is_default_route {
            line.append("  [default route]");
        }
        line.append("\n     Name: ");
        line.append(info.name.as_str());
        line.append("\n");
        let ghost before = output@;
        output.append(line.as_str());
        proof {
            assert(interface_block(interfaces@, (i + 1) as nat) == interface_block(
                interfaces@,
                i as nat,
            ) + interface_lines((i + 1) as nat, interfaces@[i as int]));
            if info.is_default_route {
                assert(line@ =~= interface_lines((i + 1) as nat, interfaces@[i as int]));
            } else {
                assert(line@ =~= interface_lines((i + 1) as nat, interfaces@[i as int]));
            }
            assert(output@ =~= "Available interfaces:\n"@ + interface_block(
                interfaces@,
                (i + 1) as nat,
            ));
        }
        i += 1;
    }
    output.append("\nUsage: delray <interface-or-number> [OPTIONS]\n");
    output.append("Run delray --help for full usage\n");
    output
}

/// Why no interface matches a selector.
#[derive(Debug)]
pub enum SelectError {
    /// An all-digit selector that is no valid number: the selector and the
    /// number of interfaces.
    InvalidNumber(String, usize),
    /// Any other selector that names no interface.
    NotFound(String),
}

pub open spec fn invalid_number_message(selector: Seq<char>, count: nat) -> Seq<char> {
    if count == 0 {
        "Invalid interface number: "@ + selector + " (no interfaces available)"@
    } else {
        "Invalid interface number: "@ + selector + " (choose 1-"@ + decimal(count) + ")"@
    }
}

pub open spec fn not_found_message(selector: Seq<char>) -> Seq<char> {
    "Interface not found: "@ + selector
}

impl SelectError {
    pub open spec fn spec_message(&self) -> Seq<char> {
        match self {
            SelectError::InvalidNumber(s, n) => invalid_number_message(s@, *n as nat),
            SelectError::NotFound(s) => not_found_message(s@),
        }
    }

    /// The message shown to the user.
    pub fn message(&self) -> (r: String)
        ensures
            r@ == self.spec_message(),
    {
        match self {
            SelectError::InvalidNumber(s, n) => {
                let mut out = String::from_str("Invalid interface number: ");
                out.append(s.as_str());
                if *n == 0 {
                    out.append(" (no interfaces available)");
                } else {
                    out.append(" (choose 1-");
                    let count = decimal_string(*n as u64);
                    out.append(count.as_str());
                    out.append(")");
                }
                out
            },
            SelectError::NotFound(s) => {
                let mut out = String::from_str("Interface not found: ");
                out.append(s.as_str());
                out
            },
        }
    }
}

/// Position of the first name equal to `selector`.
pub open spec fn name_pos(names: Seq<Seq<char>>, selector: Seq<char>) -> Option<int> {
    if exists|i: int| 0 <= i < names.len() && names[i] == selector {
        Some(choose|i: int| 0 <= i < names.len() && names[i] == selector && forall|j: int|
            0 <= j < i ==> names[j] != selector)
    } else {
        None
    }
}

pub open spec fn device_names(devices: Seq<DeviceSummary>) -> Seq<Seq<char>> {
    devices.map_values(|d: DeviceSummary| d.name@)
}

/// Which device a selector picks: the first device with that exact name;
/// otherwise, for a non-empty all-digit selector, the device with that
/// number (counted from 1).
pub open spec fn spec_select(names: Seq<Seq<char>>, selector: Seq<char>) -> Result<int, ()> {
    match name_pos(names, selector) {
        Some(i) => Ok(i),
        None => if selector.len() > 0 && all_digits(selector) && 1 <= digits_value(selector)
            <= names.len() {
            Ok(digits_value(selector) - 1)
        } else {
            Err(())
        },
    }
}

fn parse_digits(chars: &Vec<char>) -> (r: Option<usize>)
    requires
        all_digits(chars@),
    ensures
        match r {
            Some(v) => v == digits_value(chars@),
            None => digits_value(chars@) > usize::MAX,
        },
{
    let mut value: usize = 0;
    let mut i: usize = 0;
    while i < chars.len()
        invariant
            i <= chars@.len(),
            all_digits(chars@),
            value == digits_value(chars@.subrange(0, i as int)),
        decreases chars@.len() - i,
    {
        proof {
            assert(chars@.subrange(0, i + 1).drop_last() =~= chars@.subrange(0, i as int));
            assert(is_ascii_digit(chars@[i as int]));
        }
        let d = (chars[i] as u32 - '0' as u32) as usize;
        if value > (usize::MAX - d) / 10 {
            proof {
                lemma_digits_value_grows(chars@, i as nat);
            }
            return None;
        }
        value = value * 10 + d;
        i += 1;
    }
    assert(chars@.subrange(0, chars@.len() as int) =~= chars@);
    Some(value)
}

proof fn lemma_digits_value_grows(s: Seq<char>, i: nat)
    requires
        i < s.len(),
        all_digits(s),
    ensures
        digits_value(s) >= digits_value(s.subrange(0, i + 1 as int)),
    decreases s.len() - i,
{
    if i + 1 < s.len() {
        lemma_digits_value_grows(s, i + 1);
        assert(s.subrange(0, i + 2 as int).drop_last() =~= s.subrange(0, i + 1 as int));
        assert(is_ascii_digit(s[i + 1 as int]));
    } else {
        assert(s.subrange(0, i + 1 as int) =~= s);
    }
}

fn is_all_digits(chars: &Vec<char>) -> (r: bool)
    ensures
        r == all_digits(chars@),
{
    let mut i: usize = 0;
    while i < chars.len()
        invariant
            i <= chars@.len(),
            forall|k: int| 0 <= k < i ==> is_ascii_digit(#[trigger] chars@[k]),
        decreases chars@.len() - i,
    {
        if !('0' <= chars[i] && chars[i] <= '9') {
            return false;
        }
        i += 1;
    }
    true
}

/// Chooses a device by its full name or by its number in the listing.
/// Returns the device's position.
pub fn select_device(selector: &str, devices: &Vec<DeviceSummary>) -> (r: Result<usize, SelectError>)
    ensures
        match spec_select(device_names(devices@), selector@) {
            Ok(i) => r matches Ok(j) && j == i,
            Err(_) => r matches Err(e) && e.spec_message() == if selector@.len() > 0 && all_digits(
                selector@,
            ) {
                invalid_number_message(selector@, devices@.len())
            } else {
                not_found_message(selector@)
            },
        },
{
    let ghost names = device_names(devices@);
    let mut i: usize = 0;
    while i < devices.len()
        invariant
            i <= devices@.len(),
            names == device_names(devices@),
            forall|k: int| 0 <= k < i ==> names[k] != selector@,
        decreases devices@.len() - i,
    {
        let sel = String::from_str(selector);
        if devices[i].name == sel {
            proof {
                assert(names[i as int] == selector@);
                assert(name_pos(names, selector@) == Some(i as int)) by {
                    let c = choose|j: int| 0 <= j < names.len() && names[j] == selector@ && forall|q: int|
                        0 <= q < j ==> names[q] != selector@;
                    if c < i {
                    } else if c > i {
                        assert(names[i as int] != selector@);
                    }
                }
            }
            return Ok(i);
        }
        i += 1;
    }
    let chars = chars_of(selector);
    if chars.len() > 0 && is_all_digits(&chars) {
        match parse_digits(&chars) {
            Some(number) => {
                if number >= 1 && number <= devices.len() {
                    return Ok(number - 1);
                }
            },
            None => {},
        }
        return Err(SelectError::InvalidNumber(String::from_str(selector), devices.len()));
    }
    Err(SelectError::NotFound(String::from_str(selector)))
}

proof fn lemma_contains_push<T>(s: Seq<T>, v: T, x: T)
    ensures
        s.push(v).contains(x) <==> s.contains(x) || x == v,
{
    if s.contains(x) {
        let w = choose|w: int| 0 <= w < s.len() && s[w] == x;
        assert(s.push(v)[w] == x);
    }
    if x == v {
        assert(s.push(v)[s.len() as int] == v);
    }
    if s.push(v).contains(x) {
        let w = choose|w: int| 0 <= w < s.push(v).len() && s.push(v)[w] == x;
        if w < s.len() {
            assert(s[w] == x);
        }
    }
}

/// Every address of every device, each once, in order of first appearance.
pub fn collect_local_ips(devices: &Vec<DeviceSummary>) -> (r: Vec<IpAddress>)
    ensures
        forall|ip: IpAddress| r@.contains(ip) <==> exists|i: int|
            0 <= i < devices@.len() && #[trigger] devices@[i].addresses@.contains(ip),
        forall|a: int, b: int| 0 <= a < b < r@.len() ==> r@[a] != r@[b],
{
    let mut out: Vec<IpAddress> = Vec::new();
    let mut i: usize = 0;
    while i < devices.len()
        invariant
            i <= devices@.len(),
            forall|ip: IpAddress| out@.contains(ip) <==> exists|k: int|
                0 <= k < i && #[trigger] devices@[k].addresses@.contains(ip),
            forall|a: int, b: int| 0 <= a < b < out@.len() ==> out@[a] != out@[b],
        decreases devices@.len() - i,
    {
        let addrs = &devices[i].addresses;
        let mut j: usize = 0;
        while j < addrs.len()
            invariant
                j <= addrs@.len(),
                i < devices@.len(),
                addrs == devices@[i as int].addresses,
                forall|ip: IpAddress| out@.contains(ip) <==> (exists|k: int|
                    0 <= k < i && #[trigger] devices@[k].addresses@.contains(ip)) || addrs@.subrange(
                    0,
                    j as int,
                ).contains(ip),
                forall|a: int, b: int| 0 <= a < b < out@.len() ==> out@[a] != out@[b],
            decreases addrs@.len() - j,
        {
            let ip = addrs[j];
            let mut seen = false;
            let mut k: usize = 0;
            while k < out.len()
                invariant
                    k <= out@.len(),
                    seen == out@.subrange(0, k as int).contains(ip),
                decreases out@.len() - k,
            {
                if out[k] == ip {
                    seen = true;
                }
                k += 1;
                proof {
                    assert(out@.subrange(0, k as int) =~= out@.subrange(0, k - 1).push(out@[k - 1]));
                    lemma_contains_push(out@.subrange(0, k - 1), out@[k - 1], ip);
                }
            }
            assert(out@.subrange(0, out@.len() as int) =~= out@);
            let ghost before = out@;
            if !seen {
                out.push(ip);
            }
            proof {
                assert(addrs@.subrange(0, j + 1) =~= addrs@.subrange(0, j as int).push(ip));
                assert forall|x: IpAddress| out@.contains(x) <==> before.contains(x) || x == ip by {
                    if !seen {
                        lemma_contains_push(before, ip, x);
                    }
                }
                assert forall|x: IpAddress| addrs@.subrange(0, j + 1).contains(x) <==> addrs@.subrange(
                    0,
                    j as int,
                ).contains(x) || x == ip by {
                    lemma_contains_push(addrs@.subrange(0, j as int), ip, x);
                }
                assert forall|x: IpAddress| out@.contains(x) <==> (exists|k: int|
                    0 <= k < i && #[trigger] devices@[k].addresses@.contains(x)) || addrs@.subrange(
                    0,
                    j + 1,
                ).contains(x) by {
                    assert(before.contains(x) <==> (exists|k: int|
                        0 <= k < i && #[trigger] devices@[k].addresses@.contains(x)) || addrs@.subrange(
                        0,
                        j as int,
                    ).contains(x));
                }
                if !seen {
                    assert forall|a: int, b: int| 0 <= a < b < out@.len() implies out@[a] != out@[b] by {
                        if b == out@.len() - 1 {
                            assert(before[a] == out@[a]);
                        }
                    }
                }
            }
            j += 1;
        }
        proof {
            assert(addrs@.subrange(0, addrs@.len() as int) =~= addrs@);
            assert forall|ip: IpAddress| out@.contains(ip) <==> exists|k: int|
                0 <= k < i + 1 && #[trigger] devices@[k].addresses@.contains(ip) by {
                if out@.contains(ip) && !(exists|k: int|
                    0 <= k < i && #[trigger] devices@[k].addresses@.contains(ip)) {
                    assert(devices@[i as int].addresses@.contains(ip));
                }
            }
        }
        i += 1;
    }
    out
}

// ---------------------------------------------------------------------------
// The default-route interface, from the kernel's IPv4 routing table

/// The lines of `rest`, `acc` holding the finished ones and `cur` the one
/// being read, as `str::lines` splits text: at each `\n`, a `\r` before it
/// dropped; a last line without `\n` kept when it is not empty.
pub open spec fn lines_acc(rest: Seq<char>, acc: Seq<Seq<char>>, cur: Seq<char>) -> Seq<Seq<char>>
    decreases rest.len(),
{
    if rest.len() == 0 {
        if cur.len() == 0 {
            acc
        } else {
            acc.push(cur)
        }
    } else if rest[0] == '\n' {
        let line = if cur.len() > 0 && cur.last() == '\r' {
            cur.drop_last()
        } else {
            cur
        };
        lines_acc(rest.drop_first(), acc.push(line), Seq::empty())
    } else {
        lines_acc(rest.drop_first(), acc, cur.push(rest[0]))
    }
}

/// The lines of `s`.
pub open spec fn lines_of(s: Seq<char>) -> Seq<Seq<char>> {
    lines_acc(s, Seq::empty(), Seq::empty())
}

/// The words of `rest`, as `str::split_whitespace` splits text: the
/// maximal runs of characters that are not white space.
pub open spec fn words_acc(rest: Seq<char>, acc: Seq<Seq<char>>, cur: Seq<char>) -> Seq<Seq<char>>
    decreases rest.len(),
{
    if rest.len() == 0 {
        if cur.len() == 0 {
            acc
        } else {
            acc.push(cur)
        }
    } else if is_white_space(rest[0]) {
        if cur.len() == 0 {
            words_acc(rest.drop_first(), acc, cur)
        } else {
            words_acc(rest.drop_first(), acc.push(cur), Seq::empty())
        }
    } else {
        words_acc(rest.drop_first(), acc, cur.push(rest[0]))
    }
}

/// The words of `s`.
pub open spec fn words_of(s: Seq<char>) -> Seq<Seq<char>> {
    words_acc(s, Seq::empty(), Seq::empty())
}

pub open spec fn is_hex_digit(c: char) -> bool {
    ('0' <= c <= '9') || ('a' <= c <= 'f') || ('A' <= c <= 'F')
}

pub open spec fn hex_digit_value(c: char) -> nat {
    if '0' <= c <= '9' {
        (c as int - '0' as int) as nat
    } else if 'a' <= c <= 'f' {
        (c as int - 'a' as int + 10) as nat
    } else {
        (c as int - 'A' as int + 10) as nat
    }
}

/// The number written by the hexadecimal digits `d`, most significant first.
pub open spec fn hex_value(d: Seq<char>) -> nat
    decreases d.len(),
{
    if d.len() == 0 {
        0
    } else {
        hex_value(d.drop_last()) * 16 + hex_digit_value(d.last())
    }
}

/// The `u32` that `s` writes in hexadecimal, as `u32::from_str_radix(s, 16)`
/// reads it: an optional `+`, then one or more hexadecimal digits of either
/// case, of a value that fits.
pub open spec fn spec_parse_hex_u32(s: Seq<char>) -> Option<u32> {
    let d = unsigned_digits(s);
    if d.len() > 0 && (forall|i: int| 0 <= i < d.len() ==> is_hex_digit(#[trigger] d[i]))
        && hex_value(d) <= u32::MAX {
        Some(hex_value(d) as u32)
    } else {
        None
    }
}

/// The default-route interface in the routing table rows `rows`: the first
/// row of at least 11 fields whose destination (the second field, in
/// hexadecimal) is zero; no answer at all once a destination does not read.
pub open spec fn route_scan(rows: Seq<Seq<char>>) -> Option<Seq<char>>
    decreases rows.len(),
{
    if rows.len() == 0 {
        None
    } else {
        let fields = words_of(rows[0]);
        if fields.len() >= 11 {
            match spec_parse_hex_u32(fields[1]) {
                None => None,
                Some(dest) => if dest == 0 {
                    Some(fields[0])
                } else {
                    route_scan(rows.drop_first())
                },
            }
        } else {
            route_scan(rows.drop_first())
        }
    }
}

/// The default-route interface named by the text of `/proc/net/route`: the
/// rows after the heading line, scanned by [`route_scan`].
pub open spec fn spec_default_interface(route_table: Seq<char>) -> Option<Seq<char>> {
    let rows = lines_of(route_table);
    if rows.len() == 0 {
        None
    } else {
        route_scan(rows.drop_first())
    }
}

pub open spec fn deep_chars(v: Seq<Vec<char>>) -> Seq<Seq<char>> {
    v.map_values(|x: Vec<char>| x@)
}

proof fn lemma_deep_push(v: Seq<Vec<char>>, x: Vec<char>)
    ensures
        deep_chars(v.push(x)) == deep_chars(v).push(x@),
{
    assert(deep_chars(v.push(x)) =~= deep_chars(v).push(x@));
}

fn split_lines(s: &Vec<char>) -> (r: Vec<Vec<char>>)
    ensures
        deep_chars(r@) == lines_of(s@),
{
    let mut acc: Vec<Vec<char>> = Vec::new();
    let mut cur: Vec<char> = Vec::new();
    let mut i: usize = 0;
    assert(s@.subrange(0, s@.len() as int) =~= s@);
    assert(deep_chars(acc@) =~= Seq::<Seq<char>>::empty());
    assert(cur@ =~= Seq::<char>::empty());
    while i < s.len()
        invariant
            i <= s@.len(),
            lines_acc(s@.subrange(i as int, s@.len() as int), deep_chars(acc@), cur@) == lines_of(s@),
        decreases s@.len() - i,
    {
        let ghost rest = s@.subrange(i as int, s@.len() as int);
        assert(rest.drop_first() =~= s@.subrange(i + 1, s@.len() as int));
        assert(rest[0] == s@[i as int]);
        let c = s[i];
        if c == '\n' {
            let mut line = cur;
            if line.len() > 0 && line[line.len() - 1] == '\r' {
                line.pop();
            }
            proof {
                let ghost old_cur = cur@;
                if old_cur.len() > 0 && old_cur.last() == '\r' {
                    assert(line@ =~= old_cur.drop_last());
                }
                lemma_deep_push(acc@, line);
            }
            acc.push(line);
            cur = Vec::new();
            assert(cur@ =~= Seq::<char>::empty());
        } else {
            cur.push(c);
        }
        i += 1;
    }
    let ghost before = acc@;
    if cur.len() > 0 {
        proof {
            lemma_deep_push(acc@, cur);
        }
        acc.push(cur);
    }
    acc
}

fn split_words(s: &Vec<char>) -> (r: Vec<Vec<char>>)
    ensures
        deep_chars(r@) == words_of(s@),
{
    let mut acc: Vec<Vec<char>> = Vec::new();
    let mut cur: Vec<char> = Vec::new();
    let mut i: usize = 0;
    assert(s@.subrange(0, s@.len() as int) =~= s@);
    assert(deep_chars(acc@) =~= Seq::<Seq<char>>::empty());
    assert(cur@ =~= Seq::<char>::empty());
    while i < s.len()
        invariant
            i <= s@.len(),
            words_acc(s@.subrange(i as int, s@.len() as int), deep_chars(acc@), cur@) == words_of(s@),
        decreases s@.len() - i,
    {
        let ghost rest = s@.subrange(i as int, s@.len() as int);
        assert(rest.drop_first() =~= s@.subrange(i + 1, s@.len() as int));
        assert(rest[0] == s@[i as int]);
        let c = s[i];
        if is_white_space_exec(c) {
            if cur.len() > 0 {
                proof {
                    lemma_deep_push(acc@, cur);
                }
                acc.push(cur);
                cur = Vec::new();
                assert(cur@ =~= Seq::<char>::empty());
            }
        } else {
            cur.push(c);
        }
        i += 1;
    }
    if cur.len() > 0 {
        proof {
            lemma_deep_push(acc@, cur);
        }
        acc.push(cur);
    }
    acc
}

proof fn lemma_hex_value_grows(d: Seq<char>, k: int)
    requires
        0 <= k <= d.len(),
    ensures
        hex_value(d.subrange(0, k)) <= hex_value(d),
    decreases d.len() - k,
{
    if k < d.len() {
        lemma_hex_value_grows(d, k + 1);
        assert(d.subrange(0, k + 1).drop_last() =~= d.subrange(0, k));
    } else {
        assert(d.subrange(0, k) =~= d);
    }
}

fn hex_digit(c: char) -> (r: Option<u32>)
    ensures
        match r {
            Some(v) => is_hex_digit(c) && v == hex_digit_value(c),
            None => !is_hex_digit(c),
        },
{
    if '0' <= c && c <= '9' {
        Some(c as u32 - '0' as u32)
    } else if 'a' <= c && c <= 'f' {
        Some(c as u32 - 'a' as u32 + 10)
    } else if 'A' <= c && c <= 'F' {
        Some(c as u32 - 'A' as u32 + 10)
    } else {
        None
    }
}

/// Reads a hexadecimal `u32`; see [`spec_parse_hex_u32`].
pub fn parse_hex_u32(s: &Vec<char>) -> (r: Option<u32>)
    ensures
        r == spec_parse_hex_u32(s@),
{
    let n = s.len();
    let start: usize = if n > 0 && s[0] == '+' { 1 } else { 0 };
    let ghost d = unsigned_digits(s@);
    assert(d =~= s@.subrange(start as int, n as int));
    if start == n {
        return None;
    }
    let mut value: u32 = 0;
    let mut i: usize = start;
    while i < n
        invariant
            n == s@.len(),
            start <= i <= n,
            d == s@.subrange(start as int, n as int),
            d == unsigned_digits(s@),
            forall|k: int| 0 <= k < i - start ==> is_hex_digit(#[trigger] d[k]),
            value == hex_value(d.subrange(0, i - start)),
        decreases n - i,
    {
        assert(d.subrange(0, i - start + 1).drop_last() =~= d.subrange(0, i - start));
        assert(d.subrange(0, i - start + 1).last() == s@[i as int]);
        match hex_digit(s[i]) {
            None => {
                assert(!is_hex_digit(d[i - start]));
                return None;
            },
            Some(digit) => match value.checked_mul(16) {
                Some(sixteens) => match sixteens.checked_add(digit) {
                    Some(next) => {
                        value = next;
                    },
                    None => {
                        proof {
                            lemma_hex_value_grows(d, i - start + 1);
                        }
                        return None;
                    },
                },
                None => {
                    proof {
                        lemma_hex_value_grows(d, i - start + 1);
                    }
                    return None;
                },
            },
        }
        i += 1;
    }
    assert(d.subrange(0, d.len() as int) =~= d);
    Some(value)
}

/// The interface of the default route in `route_table`, the text of
/// `/proc/net/route`; see [`spec_default_interface`].
pub fn default_interface(route_table: &str) -> (r: Option<String>)
    ensures
        match spec_default_interface(route_table@) {
            Some(name) => r matches Some(x) && x@ == name,
            None => r is None,
        },
{
    let chars = chars_of(route_table);
    let rows = split_lines(&chars);
    if rows.len() == 0 {
        return None;
    }
    let mut i: usize = 1;
    assert(deep_chars(rows@).drop_first() =~= deep_chars(rows@).subrange(1, rows@.len() as int));
    while i < rows.len()
        invariant
            1 <= i <= rows@.len(),
            deep_chars(rows@) == lines_of(chars@),
            chars@ == route_table@,
            route_scan(deep_chars(rows@).subrange(i as int, rows@.len() as int)) == spec_default_interface(
                route_table@,
            ),
        decreases rows@.len() - i,
    {
        let ghost rest = deep_chars(rows@).subrange(i as int, rows@.len() as int);
        assert(rest.drop_first() =~= deep_chars(rows@).subrange(i + 1, rows@.len() as int));
        assert(rest[0] == rows@[i as int]@);
        let fields = split_words(&rows[i]);
        if fields.len() >= 11 {
            assert(deep_chars(fields@)[1] == fields@[1]@);
            assert(deep_chars(fields@)[0] == fields@[0]@);
            match parse_hex_u32(&fields[1]) {
                None => return None,
                Some(dest) => {
                    if dest == 0 {
                        return Some(string_from_chars(fields[0].as_slice()));
                    }
                },
            }
        }
        i += 1;
    }
    None
}

} // verus!
