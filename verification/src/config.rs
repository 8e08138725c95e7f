//! The backend parameter string: `key=value` options separated by commas.
use vstd::prelude::*;

use crate::text::{
    all_whitespace, chars_eq, chars_of, is_whitespace, lemma_trim_surrounding, lemma_parse_u32_to_decimal, lemma_split_concat,
    lemma_split_nonempty, lemma_split_without_sep, lemma_to_decimal, lemma_trim_unchanged,
    parse_u32, parse_u32_chars, split, split_chars, to_decimal, trim, trim_chars,
};
use crate::{Error, OptionParserError};

verus! {

/// The values that the options of a parameter string set, by option.
pub struct OptionValues {
    pub guest_cid: Option<Seq<char>>,
    pub uds_path: Option<Seq<char>>,
    pub socket: Option<Seq<char>>,
}

/// Why a parameter string is refused.
pub enum ParseFailure {
    UnknownOption(Seq<char>),
    InvalidSyntax(Seq<char>),
    Conversion(Seq<char>, Seq<char>),
    SocketMissing,
    UdsPathMissing,
}

/// The settings that a parameter string gives.
pub struct ConfigModel {
    pub guest_cid: u32,
    pub uds_path: Seq<char>,
    pub socket: Seq<char>,
}

/// The guest CID where the parameter string gives none.
pub const DEFAULT_GUEST_CID: u32 = 3;

pub open spec fn no_values() -> OptionValues {
    OptionValues { guest_cid: None, uds_path: None, socket: None }
}

/// Which option a name selects: 0 for `guest_cid`, 1 for `uds_path`, 2 for `socket`.
pub open spec fn option_index(name: Seq<char>) -> Option<int> {
    if name == "guest_cid"@ {
        Some(0)
    } else if name == "uds_path"@ {
        Some(1)
    } else if name == "socket"@ {
        Some(2)
    } else {
        None
    }
}

pub open spec fn set_value(vals: OptionValues, which: int, v: Seq<char>) -> OptionValues {
    if which == 0 {
        OptionValues { guest_cid: Some(v), ..vals }
    } else if which == 1 {
        OptionValues { uds_path: Some(v), ..vals }
    } else {
        OptionValues { socket: Some(v), ..vals }
    }
}

/// The effect of one option `name[=value]` on the values set so far:
/// the name must be known; a bare name sets nothing; `name=value` sets the
/// trimmed value; a second `=` is refused.
pub open spec fn apply_option(vals: OptionValues, option: Seq<char>) -> Result<
    OptionValues,
    ParseFailure,
> {
    let parts = split(option, '=');
    let name = parts[0];
    match option_index(name) {
        None => Err(ParseFailure::UnknownOption(name)),
        Some(which) => if parts.len() == 1 {
            Ok(vals)
        } else if parts.len() == 2 {
            Ok(set_value(vals, which, trim(parts[1])))
        } else {
            Err(ParseFailure::InvalidSyntax(option))
        },
    }
}

/// The options applied from first to last; the first refused option decides the error.
pub open spec fn apply_options(options: Seq<Seq<char>>) -> Result<OptionValues, ParseFailure>
    decreases options.len(),
{
    if options.len() == 0 {
        Ok(no_values())
    } else {
        match apply_options(options.drop_last()) {
            Err(e) => Err(e),
            Ok(vals) => apply_option(vals, options.last()),
        }
    }
}

/// Once an option is refused, the options after it change nothing.
pub proof fn lemma_refusal_is_final(options: Seq<Seq<char>>, k: int)
    requires
        0 <= k <= options.len(),
        apply_options(options.take(k)) is Err,
    ensures
        apply_options(options) == apply_options(options.take(k)),
    decreases options.len(),
{
    if k < options.len() {
        assert(options.drop_last().take(k) =~= options.take(k));
        lemma_refusal_is_final(options.drop_last(), k);
    } else {
        assert(options.take(k) =~= options);
    }
}

/// The option values of a parameter string: nothing for a blank string, else
/// the comma-separated options of the trimmed string.
pub open spec fn parse_options(input: Seq<char>) -> Result<OptionValues, ParseFailure> {
    let t = trim(input);
    if t.len() == 0 {
        Ok(no_values())
    } else {
        apply_options(split(t, ','))
    }
}

/// A value counts as given only where it is not empty.
pub open spec fn given(v: Option<Seq<char>>) -> Option<Seq<char>> {
    match v {
        Some(s) => if s.len() > 0 {
            Some(s)
        } else {
            None
        },
        None => None,
    }
}

/// The settings of a parameter string, or why it is refused: option errors
/// first, then a guest CID that is not a `u32`, then a missing `socket`,
/// then a missing `uds_path`. Without `guest_cid` the CID is 3.
pub open spec fn parse_config(input: Seq<char>) -> Result<ConfigModel, ParseFailure> {
    match parse_options(input) {
        Err(e) => Err(e),
        Ok(vals) => {
            let cid: Result<u32, ParseFailure> = match given(vals.guest_cid) {
                None => Ok(DEFAULT_GUEST_CID),
                Some(v) => match parse_u32(v) {
                    Some(n) => Ok(n),
                    None => Err(ParseFailure::Conversion("guest_cid"@, v)),
                },
            };
            match cid {
                Err(e) => Err(e),
                Ok(guest_cid) => match given(vals.socket) {
                    None => Err(ParseFailure::SocketMissing),
                    Some(socket) => match given(vals.uds_path) {
                        None => Err(ParseFailure::UdsPathMissing),
                        Some(uds_path) => Ok(ConfigModel { guest_cid, uds_path, socket }),
                    },
                },
            }
        },
    }
}

/// Whether the error `e` is the refusal `f`.
pub open spec fn error_is(e: Error, f: ParseFailure) -> bool {
    match f {
        ParseFailure::UnknownOption(name) => e matches Error::FailedConfigParse(
            OptionParserError::UnknownOption(s),
        ) && s@ == name,
        ParseFailure::InvalidSyntax(option) => e matches Error::FailedConfigParse(
            OptionParserError::InvalidSyntax(s),
        ) && s@ == option,
        ParseFailure::Conversion(name, value) => e matches Error::FailedConfigParse(
            OptionParserError::Conversion(n, v),
        ) && n@ == name && v@ == value,
        ParseFailure::SocketMissing => e is SocketParameterMissing,
        ParseFailure::UdsPathMissing => e is UDSPathParameterMissing,
    }
}

/// The parameter string `guest_cid=<cid>,uds_path=<uds_path>,socket=<socket>`,
/// with the CID in decimal.
pub open spec fn render_config(guest_cid: u32, uds_path: Seq<char>, socket: Seq<char>) -> Seq<char> {
    "guest_cid"@ + seq!['='] + to_decimal(guest_cid as nat) + seq![','] + "uds_path"@ + seq!['=']
        + uds_path + seq![','] + "socket"@ + seq!['='] + socket
}

/// A value that a parameter string carries as it is: not empty, without `,`
/// or `=`, and without whitespace at either end.
pub open spec fn plain_value(v: Seq<char>) -> bool {
    &&& v.len() > 0
    &&& !v.contains(',')
    &&& !v.contains('=')
    &&& !is_whitespace(v[0])
    &&& !is_whitespace(v.last())
}

proof fn lemma_concat_lacks(a: Seq<char>, b: Seq<char>, c: char)
    requires
        !a.contains(c),
        !b.contains(c),
    ensures
        !(a + b).contains(c),
{
    if (a + b).contains(c) {
        let i = choose|i: int| 0 <= i < (a + b).len() && (a + b)[i] == c;
        if i < a.len() {
            assert(a[i] == c);
        } else {
            assert(b[i - a.len()] == c);
        }
    }
}

/// One option `name=value`: it splits at `=` into the name and the value, and
/// holds no comma.
proof fn lemma_option_parts(name: Seq<char>, value: Seq<char>)
    requires
        !name.contains(','),
        !name.contains('='),
        !value.contains(','),
        !value.contains('='),
    ensures
        split(name + seq!['='] + value, '=') == seq![name, value],
        !(name + seq!['='] + value).contains(','),
{
    lemma_split_concat(name, '=', value);
    lemma_split_without_sep(name, '=');
    lemma_split_without_sep(value, '=');
    assert(seq![name] + seq![value] =~= seq![name, value]);
    assert(!seq!['='].contains(',')) by {
        if seq!['='].contains(',') {
            let i = choose|i: int| 0 <= i < 1 && seq!['='][i] == ',';
        }
    }
    lemma_concat_lacks(name, seq!['='], ',');
    lemma_concat_lacks(name + seq!['='], value, ',');
}

/// Reading back a parameter string that names all three settings gives
/// those settings.
pub proof fn lemma_parse_rendered_config(guest_cid: u32, uds_path: Seq<char>, socket: Seq<char>)
    requires
        plain_value(uds_path),
        plain_value(socket),
    ensures
        parse_config(render_config(guest_cid, uds_path, socket)) == Ok::<ConfigModel, ParseFailure>(
            ConfigModel { guest_cid, uds_path, socket },
        ),
{
    reveal_strlit("guest_cid");
    reveal_strlit("uds_path");
    reveal_strlit("socket");
    let g = "guest_cid"@;
    let u = "uds_path"@;
    let k = "socket"@;
    let d = to_decimal(guest_cid as nat);
    lemma_to_decimal(guest_cid as nat);
    lemma_parse_u32_to_decimal(guest_cid);
    assert(!d.contains(',') && !d.contains('=')) by {
        if d.contains(',') || d.contains('=') {
            let i = choose|i: int| 0 <= i < d.len() && (d[i] == ',' || d[i] == '=');
            assert(crate::text::is_digit(d[i]));
        }
    }
    assert(crate::text::is_digit(d[0]));
    assert(crate::text::is_digit(d[d.len() - 1]));
    lemma_trim_unchanged(d);
    lemma_trim_unchanged(uds_path);
    lemma_trim_unchanged(socket);
    assert(!g.contains(',') && !g.contains('=')) by {
        if g.contains(',') || g.contains('=') {
            let i = choose|i: int| 0 <= i < g.len() && (g[i] == ',' || g[i] == '=');
        }
    }
    assert(!u.contains(',') && !u.contains('=')) by {
        if u.contains(',') || u.contains('=') {
            let i = choose|i: int| 0 <= i < u.len() && (u[i] == ',' || u[i] == '=');
        }
    }
    assert(!k.contains(',') && !k.contains('=')) by {
        if k.contains(',') || k.contains('=') {
            let i = choose|i: int| 0 <= i < k.len() && (k[i] == ',' || k[i] == '=');
        }
    }
    let a = g + seq!['='] + d;
    let b = u + seq!['='] + uds_path;
    let c = k + seq!['='] + socket;
    lemma_option_parts(g, d);
    lemma_option_parts(u, uds_path);
    lemma_option_parts(k, socket);
    let r = render_config(guest_cid, uds_path, socket);
    assert(r =~= a + seq![','] + b + seq![','] + c);
    lemma_split_concat(a + seq![','] + b, ',', c);
    lemma_split_concat(a, ',', b);
    lemma_split_without_sep(a, ',');
    lemma_split_without_sep(b, ',');
    lemma_split_without_sep(c, ',');
    assert(split(r, ',') =~= seq![a, b, c]);
    assert(r[0] == g[0]);
    assert(r.last() == socket.last());
    lemma_trim_unchanged(r);
    let opts = seq![a, b, c];
    assert(opts.drop_last() =~= seq![a, b]);
    assert(seq![a, b].drop_last() =~= seq![a]);
    assert(seq![a].drop_last() =~= Seq::<Seq<char>>::empty());
    assert(u != g);
    assert(k != g);
    assert(k != u);
    assert(option_index(g) == Some(0int));
    assert(option_index(u) == Some(1int));
    assert(option_index(k) == Some(2int));
    let v1 = OptionValues { guest_cid: Some(d), uds_path: None, socket: None };
    let v2 = OptionValues { guest_cid: Some(d), uds_path: Some(uds_path), socket: None };
    assert(split(a, '=')[0] == g && split(a, '=')[1] == d && split(a, '=').len() == 2);
    assert(apply_option(no_values(), a) == Ok::<OptionValues, ParseFailure>(v1));
    assert(apply_options(Seq::<Seq<char>>::empty()) == Ok::<OptionValues, ParseFailure>(
        no_values(),
    ));
    assert(seq![a].last() == a);
    assert(apply_options(seq![a]) == Ok::<OptionValues, ParseFailure>(v1));
    assert(seq![a, b].last() == b);
    assert(opts.last() == c);
    assert(split(b, '=')[0] == u && split(b, '=')[1] == uds_path && split(b, '=').len() == 2);
    assert(apply_option(v1, b) == Ok::<OptionValues, ParseFailure>(v2));
    assert(apply_options(seq![a, b]) == Ok::<OptionValues, ParseFailure>(v2));
    assert(split(c, '=')[0] == k && split(c, '=')[1] == socket && split(c, '=').len() == 2);
    assert(apply_options(opts) == Ok::<OptionValues, ParseFailure>(
        OptionValues { guest_cid: Some(d), uds_path: Some(uds_path), socket: Some(socket) },
    ));
}

/// An option appended to a parameter string decides the value of its
/// option: `s,name=v` gives `name` the value `v` whatever `s` gave it, and
/// leaves the other options as `s` gave them; the settings read from it
/// then carry `v` for that option.
pub proof fn lemma_later_option_wins(s: Seq<char>, name: Seq<char>, v: Seq<char>)
    requires
        name == "guest_cid"@ || name == "uds_path"@ || name == "socket"@,
        s.len() > 0,
        !is_whitespace(s[0]),
        !is_whitespace(s.last()),
        parse_options(s) is Ok,
        plain_value(v),
    ensures
        ({
            let t = s + seq![','] + name + seq!['='] + v;
            let prev = parse_options(s)->Ok_0;
            &&& parse_options(t) is Ok
            &&& name == "guest_cid"@ ==> parse_options(t)->Ok_0 == (OptionValues {
                guest_cid: Some(v),
                uds_path: prev.uds_path,
                socket: prev.socket,
            })
            &&& name == "uds_path"@ ==> parse_options(t)->Ok_0 == (OptionValues {
                guest_cid: prev.guest_cid,
                uds_path: Some(v),
                socket: prev.socket,
            })
            &&& name == "socket"@ ==> parse_options(t)->Ok_0 == (OptionValues {
                guest_cid: prev.guest_cid,
                uds_path: prev.uds_path,
                socket: Some(v),
            })
            &&& name == "socket"@ ==> (parse_config(t) matches Ok(m) ==> m.socket == v)
            &&& name == "uds_path"@ ==> (parse_config(t) matches Ok(m) ==> m.uds_path == v)
            &&& name == "guest_cid"@ ==> (parse_config(t) matches Ok(m) ==> parse_u32(v) == Some(
                m.guest_cid,
            ))
        }),
{
    reveal_strlit("guest_cid");
    reveal_strlit("uds_path");
    reveal_strlit("socket");
    let g = "guest_cid"@;
    let u = "uds_path"@;
    let k = "socket"@;
    assert(g.len() == 9 && u.len() == 8 && k.len() == 6);
    assert(u != g);
    assert(k != g);
    assert(k != u);
    assert(!name.contains(',') && !name.contains('=')) by {
        if name.contains(',') || name.contains('=') {
            let i = choose|i: int| 0 <= i < name.len() && (name[i] == ',' || name[i] == '=');
        }
    }
    let opt = name + seq!['='] + v;
    lemma_option_parts(name, v);
    let t = s + seq![','] + name + seq!['='] + v;
    assert(t =~= s + seq![','] + opt);
    lemma_trim_unchanged(s);
    lemma_trim_unchanged(v);
    assert(t[0] == s[0]);
    assert(t.last() == v.last());
    lemma_trim_unchanged(t);
    lemma_split_concat(s, ',', opt);
    lemma_split_without_sep(opt, ',');
    let pieces = split(s, ',') + seq![opt];
    assert(split(t, ',') =~= pieces);
    assert(pieces.drop_last() =~= split(s, ','));
    assert(pieces.last() == opt);
    assert(split(opt, '=')[0] == name && split(opt, '=')[1] == v && split(opt, '=').len() == 2);
    assert(parse_options(s) == apply_options(split(s, ',')));
}

/// Whitespace before and after a parameter string changes nothing.
pub proof fn lemma_surrounding_whitespace_ignored(pre: Seq<char>, s: Seq<char>, post: Seq<char>)
    requires
        all_whitespace(pre),
        all_whitespace(post),
    ensures
        parse_config(pre + s + post) == parse_config(s),
{
    lemma_trim_surrounding(pre, s, post);
}

/// Settings of the vsock backend.
pub struct VhostUserVsockBackendConfig {
    pub guest_cid: u32,
    pub uds_path: String,
    pub socket: String,
}

/// Whether the result of a parse is the outcome `m`.
pub open spec fn config_result_is(
    r: Result<VhostUserVsockBackendConfig, Error>,
    m: Result<ConfigModel, ParseFailure>,
) -> bool {
    match (r, m) {
        (Ok(c), Ok(m)) => c.guest_cid == m.guest_cid && c.uds_path@ == m.uds_path && c.socket@
            == m.socket,
        (Err(e), Err(f)) => error_is(e, f),
        _ => false,
    }
}

/// Appends `c` to `s` (`String::push`).
#[verifier::external_body]
fn string_push(s: &mut String, c: char)
    ensures
        final(s)@ == old(s)@.push(c),
{
    s.push(c)
}

/// The string of the characters `v`.
pub fn string_of(v: &Vec<char>) -> (s: String)
    ensures
        s@ == v@,
{
    let mut s = String::new();
    let mut i: usize = 0;
    while i < v.len()
        invariant
            i <= v@.len(),
            s@ == v@.take(i as int),
        decreases v@.len() - i,
    {
        string_push(&mut s, v[i]);
        assert(v@.take(i + 1) =~= v@.take(i as int).push(v@[i as int]));
        i = i + 1;
    }
    assert(v@.take(v@.len() as int) =~= v@);
    s
}

pub open spec fn opt_view(o: Option<Vec<char>>) -> Option<Seq<char>> {
    match o {
        Some(v) => Some(v@),
        None => None,
    }
}

/// A value where it is given (not empty).
fn given_value(o: Option<Vec<char>>) -> (r: Option<Vec<char>>)
    ensures
        opt_view(r) == given(opt_view(o)),
{
    match o {
        Some(v) => if v.len() > 0 {
            Some(v)
        } else {
            None
        },
        None => None,
    }
}

/// Reads the option values of a parameter string.
fn read_options(input: &Vec<char>) -> (r: Result<(Option<Vec<char>>, Option<Vec<char>>, Option<Vec<char>>), Error>)
    ensures
        match (r, parse_options(input@)) {
            (Ok((g, u, s)), Ok(vals)) => opt_view(g) == vals.guest_cid && opt_view(u)
                == vals.uds_path && opt_view(s) == vals.socket,
            (Err(e), Err(f)) => error_is(e, f),
            _ => false,
        },
{
    let t = trim_chars(input);
    let mut g: Option<Vec<char>> = None;
    let mut u: Option<Vec<char>> = None;
    let mut s: Option<Vec<char>> = None;
    if t.len() == 0 {
        return Ok((g, u, s));
    }
    let options = split_chars(&t, ',');
    let ghost spec_options = split(t@, ',');
    let name_guest_cid = chars_of("guest_cid");
    let name_uds_path = chars_of("uds_path");
    let name_socket = chars_of("socket");
    let mut p: usize = 0;
    assert(spec_options.take(0) =~= Seq::<Seq<char>>::empty());
    while p < options.len()
        invariant
            options@.len() == spec_options.len(),
            spec_options == split(t@, ','),
            t@ == trim(input@),
            t@.len() > 0,
            forall|k: int| 0 <= k < options@.len() ==> #[trigger] options@[k]@ == spec_options[k],
            p <= options@.len(),
            name_guest_cid@ == "guest_cid"@,
            name_uds_path@ == "uds_path"@,
            name_socket@ == "socket"@,
            apply_options(spec_options.take(p as int)) == Ok::<OptionValues, ParseFailure>(
                OptionValues {
                    guest_cid: opt_view(g),
                    uds_path: opt_view(u),
                    socket: opt_view(s),
                },
            ),
        decreases options@.len() - p,
    {
        let option = &options[p];
        assert(option@ == spec_options[p as int]);
        assert(spec_options.take(p + 1).drop_last() =~= spec_options.take(p as int));
        assert(spec_options.take(p + 1).last() == option@);
        let parts = split_chars(option, '=');
        proof {
            lemma_split_nonempty(option@, '=');
        }
        let name = &parts[0];
        let which: u8 = if chars_eq(name, &name_guest_cid) {
            0
        } else if chars_eq(name, &name_uds_path) {
            1
        } else if chars_eq(name, &name_socket) {
            2
        } else {
            proof {
                lemma_refusal_is_final(spec_options, p + 1);
            }
            return Err(Error::FailedConfigParse(OptionParserError::UnknownOption(string_of(name))));
        };
        if parts.len() == 1 {
        } else if parts.len() == 2 {
            let v = trim_chars(&parts[1]);
            if which == 0 {
                g = Some(v);
            } else if which == 1 {
                u = Some(v);
            } else {
                s = Some(v);
            }
        } else {
            proof {
                lemma_refusal_is_final(spec_options, p + 1);
            }
            return Err(Error::FailedConfigParse(OptionParserError::InvalidSyntax(string_of(option))));
        }
        p = p + 1;
    }
    assert(spec_options.take(options@.len() as int) =~= spec_options);
    Ok((g, u, s))
}

impl VhostUserVsockBackendConfig {
    /// Reads the settings from a parameter string such as
    /// `guest_cid=4,uds_path=/tmp/vm4.vsock,socket=/tmp/vhost4.socket`.
    pub fn parse(backend: &str) -> (r: Result<Self, Error>)
        ensures
            config_result_is(r, parse_config(backend@)),
    {
        let input = chars_of(backend);
        let (g, u, s) = match read_options(&input) {
            Ok(vals) => vals,
            Err(e) => return Err(e),
        };
        let guest_cid = match given_value(g) {
            None => DEFAULT_GUEST_CID,
            Some(v) => match parse_u32_chars(&v) {
                Some(n) => n,
                None => {
                    let name = String::from_str("guest_cid");
                    return Err(Error::FailedConfigParse(OptionParserError::Conversion(name, string_of(&v))));
                },
            },
        };
        let socket = match given_value(s) {
            None => return Err(Error::SocketParameterMissing),
            Some(v) => string_of(&v),
        };
        let uds_path = match given_value(u) {
            None => return Err(Error::UDSPathParameterMissing),
            Some(v) => string_of(&v),
        };
        Ok(VhostUserVsockBackendConfig { guest_cid, uds_path, socket })
    }
}

} // verus!
