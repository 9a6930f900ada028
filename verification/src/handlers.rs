//! The decisions behind the web handlers: which redirect targets are safe,
//! how form fields become admin commands, which homeserver a login may use,
//! and what a command's outcome flashes to the user. Rendering, sessions and
//! the HTTP round-trips are the application's.

pub mod appservices;
pub mod federation;
pub mod media;
pub mod rooms;
pub mod server;
pub mod tokens;
pub mod users;

use vstd::prelude::*;
use vstd::string::*;

use crate::matrix::{
    admin_room_alias, is_error_reply, is_member, normalize, percent_encode, spec_admin_room_alias,
    spec_is_error_reply, url_encode, BotReply, LogEntry, LoginResult, Session,
};
use crate::parse::{nonempty_trimmed, spec_fenced, strs};
use crate::text::{
    chars_of, find, has_char, has_char_exec, lemma_find, lemma_find_char,
    lines, matches_at, starts_with,
    starts_with_exec, str_eq, trim, trim_end_char, trim_end_at, trim_start_at, trimmed, string_of, line_ranges, trim_str,
};
use vstd::utf8::encode_utf8;

verus! {

// ---------------------------------------------------------------------------
// Redirect targets
// ---------------------------------------------------------------------------

/// The view of an optional string slice.
pub open spec fn opt_view(o: Option<&str>) -> Option<Seq<char>> {
    match o {
        Some(s) => Some(s@),
        None => None,
    }
}

/// The view of an optional form field.
pub open spec fn opt_seq(o: Option<String>) -> Option<Seq<char>> {
    match o {
        Some(s) => Some(s@),
        None => None,
    }
}

/// A form field's text, when the form carries it.
pub fn opt_str(o: &Option<String>) -> (r: Option<&str>)
    ensures
        opt_view(r) == opt_seq(*o),
{
    match o {
        Some(s) => Some(s.as_str()),
        None => None,
    }
}

/// Whether an optional form field is a checked checkbox.
pub open spec fn checked(o: Option<String>) -> bool {
    opt_seq(o) == Some("on"@)
}

/// The text of an optional form field, or nothing.
pub open spec fn field_text(o: Option<String>) -> Seq<char> {
    match o {
        Some(s) => s@,
        None => Seq::empty(),
    }
}

/// The query of the login page: where to go once logged in.
#[derive(Debug, Clone, Default)]
pub struct NextQuery {
    pub next: Option<String>,
}

/// A `?next=` target is followed only when it is a single-slash absolute path.
pub open spec fn is_local_path(n: Seq<char>) -> bool {
    starts_with(n, "/"@) && !starts_with(n, "//"@) && !starts_with(n, "/\\"@)
}

pub open spec fn spec_safe_next(next: Option<Seq<char>>) -> Seq<char> {
    match next {
        Some(n) => if is_local_path(n) {
            n
        } else {
            "/"@
        },
        None => "/"@,
    }
}

/// Sanitize a `?next=` target: only single-slash absolute paths are kept, to
/// defeat open redirects; anything else becomes `/`.
pub fn safe_next(next: Option<&str>) -> (r: String)
    ensures
        r@ == spec_safe_next(opt_view(next)),
{
    match next {
        Some(n) => {
            let cs = chars_of(n);
            let slash = chars_of("/");
            let double = chars_of("//");
            let back = chars_of("/\\");
            if starts_with_exec(&cs, &slash) && !starts_with_exec(&cs, &double)
                && !starts_with_exec(&cs, &back) {
                String::from_str(n)
            } else {
                String::from_str("/")
            }
        },
        None => String::from_str("/"),
    }
}

/// Whatever `?next=` holds, the redirect stays on this site: the target is
/// an absolute path that does not start with `//` or `/\`.
pub proof fn lemma_safe_next_is_local(next: Option<Seq<char>>)
    ensures
        is_local_path(spec_safe_next(next)),
{
    reveal_strlit("/");
    reveal_strlit("//");
    reveal_strlit("/\\");
    let r = spec_safe_next(next);
    if r == "/"@ {
        assert(r.subrange(0, 1) =~= "/"@);
    }
}

pub open spec fn spec_redirect_to_login(path: Seq<char>) -> Seq<char> {
    if path == "/"@ || path == "/login"@ {
        "/login"@
    } else {
        "/login?next="@ + percent_encode(encode_utf8(path))
    }
}

/// Where an unauthenticated request is sent: `/login`, carrying the requested
/// path and query (percent-encoded) as `?next=` unless it was `/` or `/login`.
pub fn redirect_to_login(path_and_query: Option<&str>) -> (r: String)
    ensures
        r@ == spec_redirect_to_login(
            match path_and_query {
                Some(p) => p@,
                None => "/"@,
            },
        ),
{
    let path = match path_and_query {
        Some(p) => p,
        None => "/",
    };
    if str_eq(path, "/") || str_eq(path, "/login") {
        String::from_str("/login")
    } else {
        let mut r = String::from_str("/login?next=");
        let enc = url_encode(path);
        r.append(enc.as_str());
        r
    }
}

// ---------------------------------------------------------------------------
// Planned commands
// ---------------------------------------------------------------------------

/// What a form submission becomes: the admin command to run, the message
/// flashed when it succeeds, and the page to go back to.
#[derive(Debug, Clone)]
pub struct Plan {
    pub cmd: String,
    pub success: String,
    pub to: String,
}

/// A submission refused before anything is sent: the message to flash and
/// the page to go back to.
#[derive(Debug, Clone)]
pub struct Refusal {
    pub msg: String,
    pub to: String,
}

// ---------------------------------------------------------------------------
// Form fields
// ---------------------------------------------------------------------------

/// An HTML checkbox is checked when the form carries `on` for it.
pub fn checkbox(val: Option<&str>) -> (b: bool)
    ensures
        b == (opt_view(val) == Some("on"@)),
{
    match val {
        Some(v) => str_eq(v, "on"),
        None => false,
    }
}

/// The views of a list of string slices.
pub open spec fn slices(v: Seq<&str>) -> Seq<Seq<char>> {
    Seq::new(v.len(), |i: int| v[i]@)
}

/// The non-blank lines of a text, each trimmed.
pub open spec fn spec_split_lines(text: Seq<char>) -> Seq<Seq<char>> {
    lines(text).filter_map(|l: Seq<char>| nonempty_trimmed(l))
}

/// The non-blank lines of a multi-line form field, each trimmed.
pub fn split_lines(text: &str) -> (v: Vec<&str>)
    ensures
        slices(v@) == spec_split_lines(text@),
{
    let cs = chars_of(text);
    let ranges = line_ranges(&cs);
    let mut out: Vec<&str> = Vec::new();
    let mut i: usize = 0;
    while i < ranges.len()
        invariant
            cs@ == text@,
            i <= ranges@.len(),
            ranges@.len() == lines(cs@).len(),
            forall|k: int|
                0 <= k < ranges@.len() ==> #[trigger] ranges@[k].0 <= ranges@[k].1 <= cs@.len()
                    && cs@.subrange(ranges@[k].0 as int, ranges@[k].1 as int) == lines(cs@)[k],
            slices(out@) == lines(cs@).take(i as int).filter_map(
                |l: Seq<char>| nonempty_trimmed(l),
            ),
        decreases ranges.len() - i,
    {
        let ghost all = lines(cs@);
        assert(all.take(i + 1).drop_last() =~= all.take(i as int));
        let (lo, hi) = ranges[i];
        assert(lo <= hi <= cs@.len());
        let a = trim_start_at(&cs, lo, hi);
        let b = trim_end_at(&cs, a, hi);
        assert(cs@.subrange(a as int, b as int) =~= trim(cs@.subrange(lo as int, hi as int)));
        if a < b {
            let piece = text.substring_char(a, b);
            out.push(piece);
            assert(slices(out@) =~= all.take(i as int).filter_map(
                |l: Seq<char>| nonempty_trimmed(l),
            ).push(piece@));
        }
        i = i + 1;
    }
    assert(lines(cs@).take(ranges@.len() as int) =~= lines(cs@));
    out
}

/// Lines joined with `\n`, as a payload.
pub fn join_lines(v: &Vec<&str>) -> (r: String)
    ensures
        r@ == crate::text::join(slices(v@), "\n"@),
{
    let mut r = String::new();
    let mut i: usize = 0;
    while i < v.len()
        invariant
            i <= v@.len(),
            r@ == crate::text::join(slices(v@).take(i as int), "\n"@),
        decreases v.len() - i,
    {
        let ghost sv = slices(v@);
        assert(sv.take(i + 1).drop_last() =~= sv.take(i as int));
        if i == 0 {
            assert(sv.take(1) =~= seq![sv[0]]);
            r.append(v[i]);
            assert(r@ =~= sv[0]);
        } else {
            r.append("\n");
            r.append(v[i]);
        }
        i = i + 1;
    }
    assert(slices(v@).take(v@.len() as int) =~= slices(v@));
    r
}

pub open spec fn spec_with_fenced_payload(cmd: Seq<char>, payload: Seq<char>) -> Seq<char> {
    cmd + "\n```\n"@ + payload + "\n```"@
}

/// Append a fenced payload after the command line. Used by list-payload
/// commands like `ban-list`, `deactivate-all`, `delete-list`.
pub fn with_fenced_payload(cmd: &str, payload: &str) -> (r: String)
    ensures
        r@ == spec_with_fenced_payload(cmd@, payload@),
{
    let mut r = String::from_str(cmd);
    r.append("\n```\n");
    r.append(payload);
    r.append("\n```");
    r
}

/// What the admin bot reads back out of a fenced payload is the payload and
/// the newline that closes it, as long as neither the command line nor the
/// payload holds a fence.
pub proof fn lemma_fenced_payload_round_trip(cmd: Seq<char>, payload: Seq<char>)
    requires
        find(cmd, "```"@) is None,
        find(payload, "```"@) is None,
    ensures
        spec_fenced(spec_with_fenced_payload(cmd, payload)) == Some(payload + "\n"@),
{
    reveal_strlit("\n```\n");
    reveal_strlit("\n```");
    reveal_strlit("```");
    reveal_strlit("\n");
    let f = "```"@;
    let s = spec_with_fenced_payload(cmd, payload);
    let n = cmd.len() as int;
    assert(s =~= cmd + seq!['\n', '`', '`', '`', '\n'] + payload + seq!['\n', '`', '`', '`']);
    lemma_find(cmd, f);
    // The first fence opens right after the command line.
    assert(matches_at(s, f, n + 1)) by {
        assert(s.subrange(n + 1, n + 4) =~= f);
    }
    assert forall|j: int| 0 <= j < n + 1 implies !#[trigger] matches_at(s, f, j) by {
        if j + 3 <= n {
            assert(s.subrange(j, j + 3) =~= cmd.subrange(j, j + 3));
            assert(!matches_at(cmd, f, j));
        } else {
            assert(s[n] == '\n');
            if matches_at(s, f, j) {
                assert(s.subrange(j, j + 3)[n - j] == s[n]);
                assert(f[n - j] == '`');
            }
        }
    }
    lemma_find(s, f);
    match find(s, f) {
        Some(k) => {
            assert(matches_at(s, f, k));
            if k < n + 1 {
                assert(!matches_at(s, f, k));
            }
            if k > n + 1 {
                assert(!matches_at(s, f, n + 1));
            }
        },
        None => {
            assert(!matches_at(s, f, n + 1));
        },
    }
    assert(find(s, f) == Some(n + 1));
    let a = s.subrange(n + 4, s.len() as int);
    assert(a =~= seq!['\n'] + payload + seq!['\n', '`', '`', '`']);
    assert(a[0] == '\n');
    lemma_find_char(a, '\n');
    assert(find(a, seq!['\n']) == Some(0int));
    let b = a.subrange(1, a.len() as int);
    assert(b =~= payload + seq!['\n', '`', '`', '`']);
    let c = payload.len() as int + 1;
    assert(b.len() - f.len() == c);
    assert(matches_at(b, f, c)) by {
        assert(b.subrange(c, c + 3) =~= f);
    }
    lemma_find(payload, f);
    assert forall|j: int| 0 <= j < c implies !#[trigger] matches_at(b, f, j) by {
        if j + 3 <= payload.len() {
            assert(b.subrange(j, j + 3) =~= payload.subrange(j, j + 3));
            assert(!matches_at(payload, f, j));
        } else {
            let n2 = payload.len() as int;
            assert(b[n2] == '\n');
            if matches_at(b, f, j) {
                assert(b.subrange(j, j + 3)[n2 - j] == b[n2]);
                assert(f[n2 - j] == '`');
            }
        }
    }
    lemma_find(b, f);
    match find(b, f) {
        Some(k) => {
            assert(matches_at(b, f, k));
            if k < c {
                assert(!matches_at(b, f, k));
            }
            if k > c {
                assert(!matches_at(b, f, c));
            }
        },
        None => {
            assert(!matches_at(b, f, c));
        },
    }
    assert(find(b, f) == Some(c));
    assert(b.subrange(0, c) =~= payload + "\n"@);
}

pub open spec fn spec_cmd_flag(cmd: Seq<char>, name: Seq<char>, val: Option<Seq<char>>) -> Seq<
    char,
> {
    match val {
        Some(v) => if trim(v).len() > 0 {
            cmd + " --"@ + name + " "@ + trim(v)
        } else {
            cmd
        },
        None => cmd,
    }
}

/// Append `--name value` to a command when the form field is present and not blank.
pub fn cmd_flag(cmd: &mut String, name: &str, val: Option<&String>)
    ensures
        final(cmd)@ == spec_cmd_flag(
            old(cmd)@,
            name@,
            match val {
                Some(v) => Some(v@),
                None => None,
            },
        ),
{
    if let Some(v) = val {
        let cs = chars_of(v.as_str());
        let t = trimmed(&cs);
        if t.len() > 0 {
            let ts = string_of(&t);
            cmd.append(" --");
            cmd.append(name);
            cmd.append(" ");
            cmd.append(ts.as_str());
        }
    }
}

/// A single-line form value: no `\n` and no `\r`.
pub open spec fn is_single_line(s: Seq<char>) -> bool {
    !has_char(s, '\n') && !has_char(s, '\r')
}

/// Whether a form value fits on one command line.
pub fn validate_line(s: &str) -> (b: bool)
    ensures
        b == is_single_line(s@),
{
    let cs = chars_of(s);
    !has_char_exec(&cs, '\n') && !has_char_exec(&cs, '\r')
}

/// A required form value: trimmed, refused when that leaves nothing.
pub fn required<'a>(value: &'a str, missing: &str, to: &str) -> (r: Result<&'a str, Refusal>)
    ensures
        match r {
            Ok(v) => v@ == trim(value@) && trim(value@).len() > 0,
            Err(e) => trim(value@).len() == 0 && e.msg@ == missing@ && e.to@ == to@,
        },
{
    let v = trim_str(value);
    if v.is_empty() {
        Err(Refusal { msg: String::from_str(missing), to: String::from_str(to) })
    } else {
        Ok(v)
    }
}

/// A required one-line form value: trimmed, refused when that leaves nothing
/// or when it spans lines.
pub fn required_line<'a>(value: &'a str, missing: &str, multiline: &str, to: &str) -> (r: Result<
    &'a str,
    Refusal,
>)
    ensures
        match r {
            Ok(v) => v@ == trim(value@) && trim(value@).len() > 0 && is_single_line(trim(value@)),
            Err(e) => e.to@ == to@ && if trim(value@).len() == 0 {
                e.msg@ == missing@
            } else {
                !is_single_line(trim(value@)) && e.msg@ == multiline@
            },
        },
{
    let v = required(value, missing, to)?;
    if !validate_line(v) {
        return Err(Refusal { msg: String::from_str(multiline), to: String::from_str(to) });
    }
    Ok(v)
}

// ---------------------------------------------------------------------------
// Markdown
// ---------------------------------------------------------------------------

/// The HTML that pulldown-cmark renders from markdown with tables and
/// strikethrough enabled.
pub uninterp spec fn markdown_html(md: Seq<char>) -> Seq<char>;

/// Renders markdown with pulldown-cmark (`Parser::new_ext` with tables and
/// strikethrough, then `html::push_html` into an empty string). The result is
/// named, not stated: it depends on the markdown alone.
#[verifier::external_body]
pub(crate) fn markdown_to_html(md: &str) -> (html: String)
    ensures
        html@ == markdown_html(md@),
{
    let mut opts = pulldown_cmark::Options::empty();
    opts.insert(pulldown_cmark::Options::ENABLE_TABLES);
    opts.insert(pulldown_cmark::Options::ENABLE_STRIKETHROUGH);
    let mut out = String::new();
    pulldown_cmark::html::push_html(&mut out, pulldown_cmark::Parser::new_ext(md, opts));
    out
}

// ---------------------------------------------------------------------------
// Homeservers and login
// ---------------------------------------------------------------------------

/// A homeserver URL with surrounding whitespace and trailing slashes removed.
pub open spec fn spec_normalize(hs: Seq<char>) -> Seq<char> {
    trim_end_char(trim(hs), '/')
}

pub open spec fn normalized_nonempty(hs: Seq<char>) -> Option<Seq<char>> {
    if spec_normalize(hs).len() > 0 {
        Some(spec_normalize(hs))
    } else {
        None
    }
}

/// The configured homeservers, normalized, blank ones dropped.
pub open spec fn spec_configured(hs: Seq<Seq<char>>) -> Seq<Seq<char>> {
    hs.filter_map(|h: Seq<char>| normalized_nonempty(h))
}

/// The homeservers a login may pick from: the configured ones, normalized,
/// blank ones dropped.
pub fn configured_homeservers(homeservers: &Vec<String>) -> (v: Vec<String>)
    ensures
        strs(v@) == spec_configured(strs(homeservers@)),
{
    let mut out: Vec<String> = Vec::new();
    let mut i: usize = 0;
    while i < homeservers.len()
        invariant
            i <= homeservers@.len(),
            strs(out@) == strs(homeservers@).take(i as int).filter_map(
                |h: Seq<char>| normalized_nonempty(h),
            ),
        decreases homeservers.len() - i,
    {
        let ghost all = strs(homeservers@);
        assert(all.take(i + 1).drop_last() =~= all.take(i as int));
        assert(all.take(i + 1).last() == homeservers@[i as int]@);
        let h = normalize(homeservers[i].as_str());
        if h.as_str().is_empty() {
        } else {
            out.push(h);
            assert(strs(out@) =~= all.take(i as int).filter_map(
                |h: Seq<char>| normalized_nonempty(h),
            ).push(spec_normalize(all[i as int])));
        }
        i = i + 1;
    }
    assert(strs(homeservers@).take(homeservers@.len() as int) =~= strs(homeservers@));
    out
}

/// Why a submitted homeserver was refused.
#[derive(Debug, Clone, Copy, PartialEq, Eq, Structural)]
pub enum HomeserverError {
    /// Nothing is configured and any server is not allowed.
    NoneConfigured,
    /// The form left the homeserver blank.
    Missing,
    /// The URL is neither `http://` nor `https://`.
    BadScheme,
    /// Only configured servers are allowed and this is not one of them.
    NotAllowed,
}

impl HomeserverError {
    pub open spec fn message_spec(self) -> Seq<char> {
        match self {
            HomeserverError::NoneConfigured => "no homeservers are configured"@,
            HomeserverError::Missing => "select or enter a homeserver URL"@,
            HomeserverError::BadScheme => "homeserver URL must start with http:// or https://"@,
            HomeserverError::NotAllowed => "homeserver is not in the allowed list"@,
        }
    }

    /// The message shown on the login page.
    pub fn message(&self) -> (m: &'static str)
        ensures
            m@ == self.message_spec(),
    {
        match self {
            HomeserverError::NoneConfigured => "no homeservers are configured",
            HomeserverError::Missing => "select or enter a homeserver URL",
            HomeserverError::BadScheme => "homeserver URL must start with http:// or https://",
            HomeserverError::NotAllowed => "homeserver is not in the allowed list",
        }
    }
}

pub open spec fn has_web_scheme(u: Seq<char>) -> bool {
    starts_with(u, "http://"@) || starts_with(u, "https://"@)
}

pub open spec fn spec_pick_homeserver(
    homeservers: Seq<Seq<char>>,
    allow_any: bool,
    submitted: Seq<char>,
) -> Result<Seq<char>, HomeserverError> {
    let configured = spec_configured(homeservers);
    let s = spec_normalize(submitted);
    if configured.len() == 0 && !allow_any {
        Err(HomeserverError::NoneConfigured)
    } else if s.len() == 0 {
        Err(HomeserverError::Missing)
    } else if !has_web_scheme(s) {
        Err(HomeserverError::BadScheme)
    } else if !allow_any && !configured.contains(s) {
        Err(HomeserverError::NotAllowed)
    } else {
        Ok(s)
    }
}

/// The homeserver a login form may use: the submitted URL, normalized, when it
/// is an `http(s)://` URL and either any server is allowed or it is configured.
pub fn pick_homeserver(homeservers: &Vec<String>, allow_any: bool, f: &LoginForm) -> (r: Result<
    String,
    HomeserverError,
>)
    ensures
        match r {
            Ok(h) => spec_pick_homeserver(strs(homeservers@), allow_any, f.homeserver@) == Ok::<
                Seq<char>,
                HomeserverError,
            >(h@),
            Err(e) => spec_pick_homeserver(strs(homeservers@), allow_any, f.homeserver@) == Err::<
                Seq<char>,
                HomeserverError,
            >(e),
        },
{
    let submitted = f.homeserver.as_str();
    let configured = configured_homeservers(homeservers);
    if configured.len() == 0 && !allow_any {
        return Err(HomeserverError::NoneConfigured);
    }
    let s = normalize(submitted);
    if s.as_str().is_empty() {
        return Err(HomeserverError::Missing);
    }
    let cs = chars_of(s.as_str());
    let http = chars_of("http://");
    let https = chars_of("https://");
    if !(starts_with_exec(&cs, &http) || starts_with_exec(&cs, &https)) {
        return Err(HomeserverError::BadScheme);
    }
    if !allow_any {
        let mut found = false;
        let mut i: usize = 0;
        while i < configured.len()
            invariant
                i <= configured@.len(),
                found == exists|j: int| 0 <= j < i && (#[trigger] configured@[j])@ == s@,
            decreases configured.len() - i,
        {
            if str_eq(configured[i].as_str(), s.as_str()) {
                found = true;
            }
            i = i + 1;
        }
        proof {
            let c = strs(configured@);
            if found {
                let j = choose|j: int| 0 <= j < configured@.len() && (#[trigger] configured@[j])@
                    == s@;
                assert(c[j] == s@);
            } else {
                assert forall|j: int| 0 <= j < c.len() implies c[j] != s@ by {
                    assert(c[j] == configured@[j]@);
                }
            }
        }
        if !found {
            return Err(HomeserverError::NotAllowed);
        }
    }
    Ok(s)
}

/// A login only ever goes to an `http://` or `https://` server, and, unless
/// any server is allowed, to one of the configured ones.
pub proof fn lemma_picked_homeserver_allowed(
    homeservers: Seq<Seq<char>>,
    allow_any: bool,
    submitted: Seq<char>,
    h: Seq<char>,
)
    requires
        spec_pick_homeserver(homeservers, allow_any, submitted) == Ok::<
            Seq<char>,
            HomeserverError,
        >(h),
    ensures
        has_web_scheme(h),
        h == spec_normalize(submitted),
        !allow_any ==> spec_configured(homeservers).contains(h),
{
}

// ---------------------------------------------------------------------------
// Flash messages and the page log
// ---------------------------------------------------------------------------

/// A one-shot message shown after a redirect, with the log of the command
/// that caused it.
#[derive(Debug, Clone)]
pub struct Flash {
    pub kind: String,
    pub text: String,
    pub log: Option<LogEntry>,
}

/// The flash left by running an admin command: an error when the call failed
/// (`Err` holds its message) or the bot's reply reads as a failure, else the
/// success message; either way with the command's log entry.
pub fn flash_for(cmd: &str, success: &str, outcome: &Result<String, String>) -> (f: Flash)
    ensures
        f.log is Some,
        f.log->0.cmd@ == cmd@,
        match outcome {
            Ok(body) => {
                &&& f.log->0.body@ == body@
                &&& f.log->0.is_error == spec_is_error_reply(body@)
                &&& if spec_is_error_reply(body@) {
                    f.kind@ == "error"@ && f.text@ == "Command failed: "@ + cmd@
                } else {
                    f.kind@ == "success"@ && f.text@ == success@
                }
            },
            Err(e) => {
                &&& f.kind@ == "error"@
                &&& f.text@ == e@
                &&& f.log->0.body@ == Seq::<char>::empty()
                &&& f.log->0.is_error
            },
        },
{
    match outcome {
        Ok(body) => {
            let is_error = is_error_reply(body.as_str());
            let log = LogEntry {
                cmd: String::from_str(cmd),
                body: String::from_str(body.as_str()),
                is_error,
            };
            if is_error {
                let mut text = String::from_str("Command failed: ");
                text.append(cmd);
                Flash { kind: String::from_str("error"), text, log: Some(log) }
            } else {
                Flash {
                    kind: String::from_str("success"),
                    text: String::from_str(success),
                    log: Some(log),
                }
            }
        },
        Err(e) => {
            let log = LogEntry {
                cmd: String::from_str(cmd),
                body: String::new(),
                is_error: true,
            };
            Flash { kind: String::from_str("error"), text: String::from_str(e.as_str()), log: Some(log) }
        },
    }
}

/// The console log of a page: the flash's entry first (which opens the log),
/// then the page's own entries; `has_error` when any of them failed.
pub struct PageLog {
    pub entries: Vec<LogEntry>,
    pub open: bool,
    pub has_error: bool,
}

pub open spec fn merged_log(flash_log: Option<LogEntry>, page: Seq<LogEntry>) -> Seq<LogEntry> {
    match flash_log {
        Some(e) => seq![e] + page,
        None => page,
    }
}

/// Whether any entry of a log failed.
fn any_error(entries: &Vec<LogEntry>) -> (b: bool)
    ensures
        b == exists|i: int| 0 <= i < entries@.len() && (#[trigger] entries@[i]).is_error,
{
    let mut i: usize = 0;
    while i < entries.len()
        invariant
            i <= entries@.len(),
            forall|j: int| 0 <= j < i ==> !(#[trigger] entries@[j]).is_error,
        decreases entries.len() - i,
    {
        if entries[i].is_error {
            return true;
        }
        i = i + 1;
    }
    false
}

/// Prepend the flash's log entry (if any) to this page's log.
pub fn install_log(flash_log: Option<LogEntry>, page_log: Vec<LogEntry>) -> (p: PageLog)
    ensures
        p.entries@ == merged_log(flash_log, page_log@),
        p.open == flash_log is Some,
        p.has_error == exists|i: int|
            0 <= i < p.entries@.len() && (#[trigger] p.entries@[i]).is_error,
{
    let ghost fl = flash_log;
    let mut entries = page_log;
    let open = flash_log.is_some();
    if let Some(e) = flash_log {
        entries.insert(0, e);
    }
    assert(entries@ =~= merged_log(fl, page_log@));
    let has_error = any_error(&entries);
    assert(has_error == exists|i: int| 0 <= i < entries@.len() && (#[trigger] entries@[i]).is_error);
    let p = PageLog { entries, open, has_error };
    assert(p.entries@ == entries@);
    p
}

// ---------------------------------------------------------------------------
// The login page and the login itself
// ---------------------------------------------------------------------------

/// What the login page shows.
#[derive(Debug, Clone)]
pub struct LoginView {
    pub allow_any_server: bool,
    pub next: String,
    pub homeservers: Vec<String>,
    pub config_error: Option<String>,
    pub error: Option<String>,
}

/// The login page: the homeservers to pick from, where to go after logging
/// in, a configuration error when no homeserver can be picked, and the error
/// of a failed attempt.
pub fn login_view(
    homeservers: &Vec<String>,
    allow_any: bool,
    error: Option<&str>,
    next: &str,
) -> (v: LoginView)
    ensures
        v.allow_any_server == allow_any,
        v.next@ == next@,
        strs(v.homeservers@) == spec_configured(strs(homeservers@)),
        match v.config_error {
            Some(m) => spec_configured(strs(homeservers@)).len() == 0 && !allow_any && m@
                == "No homeservers are configured. Set [matrix].homeservers or allow_any_server = true."@,
            None => spec_configured(strs(homeservers@)).len() > 0 || allow_any,
        },
        match v.error {
            Some(e) => opt_view(error) == Some(e@),
            None => error is None,
        },
{
    let hs = configured_homeservers(homeservers);
    let config_error = if hs.len() == 0 && !allow_any {
        Some(String::from_str("No homeservers are configured. Set [matrix].homeservers or allow_any_server = true."))
    } else {
        None
    };
    let error = match error {
        Some(e) => Some(String::from_str(e)),
        None => None,
    };
    LoginView { allow_any_server: allow_any, next: String::from_str(next), homeservers: hs, config_error, error }
}

/// Where a login stands.
#[derive(Debug, Clone)]
pub enum LoginStep {
    /// Log in to `homeserver` as `user` with the form's password.
    Login { homeserver: String, user: String },
    /// Resolve the admin room's alias with the new access token.
    ResolveAlias { homeserver: String, user_id: String, access_token: String, alias: String },
    /// Fetch the members of the admin room.
    FetchMembers {
        homeserver: String,
        user_id: String,
        access_token: String,
        alias: String,
        room_id: String,
    },
    /// Logged in as a server admin: this session is to be stored.
    Done(Session),
    /// The login is refused with this message.
    Failed(String),
}

/// What the application reports back after carrying out a login step.
#[derive(Debug, Clone)]
pub enum LoginEvent {
    /// The password login succeeded.
    LoggedIn(LoginResult),
    /// The alias names this room.
    Resolved(String),
    /// The admin room has these members.
    Members(Vec<String>),
    /// The request failed, with this message.
    Error(String),
}

/// The login form.
#[derive(Debug, Clone)]
pub struct LoginForm {
    pub username: String,
    pub password: String,
    pub homeserver: String,
}

/// A login form, taken in: the homeserver it may use (see
/// [`pick_homeserver`]) and the trimmed user name, or the refusal.
pub fn login_start(homeservers: &Vec<String>, allow_any: bool, f: &LoginForm) -> (s: LoginStep)
    ensures
        match spec_pick_homeserver(strs(homeservers@), allow_any, f.homeserver@) {
            Ok(h) => s matches LoginStep::Login { homeserver: hs, user } && hs@ == h && user@
                == trim(f.username@),
            Err(e) => s matches LoginStep::Failed(m) && m@ == e.message_spec(),
        },
{
    match pick_homeserver(homeservers, allow_any, f) {
        Ok(h) => LoginStep::Login { homeserver: h, user: String::from_str(trim_str(f.username.as_str())) },
        Err(e) => LoginStep::Failed(String::from_str(e.message())),
    }
}

/// The events each step can give: a login, a resolved alias, a member list;
/// any of them can fail.
pub open spec fn login_event_fits(step: LoginStep, event: LoginEvent) -> bool {
    match (step, event) {
        (LoginStep::Login { .. }, LoginEvent::LoggedIn(_)) => true,
        (LoginStep::ResolveAlias { .. }, LoginEvent::Resolved(_)) => true,
        (LoginStep::FetchMembers { .. }, LoginEvent::Members(_)) => true,
        (LoginStep::Login { .. }, LoginEvent::Error(_)) => true,
        (LoginStep::ResolveAlias { .. }, LoginEvent::Error(_)) => true,
        (LoginStep::FetchMembers { .. }, LoginEvent::Error(_)) => true,
        _ => false,
    }
}

/// The next login step once `event` came back from the current one. After
/// the password login the admin room's alias is the configured one or
/// `#admins:<server>` of the user id; the login succeeds only for a member
/// of the admin room (a server admin).
pub fn login_step(step: LoginStep, event: LoginEvent, configured_alias: &str) -> (next: LoginStep)
    requires
        login_event_fits(step, event),
    ensures
        match (step, event) {
            (LoginStep::Login { homeserver, user: _ }, LoginEvent::LoggedIn(l)) => match spec_admin_room_alias(configured_alias@, l.user_id@) {
                Some(a) => next matches LoginStep::ResolveAlias { homeserver: h, user_id: u, access_token: t, alias } && h@ == homeserver@ && u@ == l.user_id@ && t@ == l.access_token@ && alias@ == a,
                None => next matches LoginStep::Failed(m) && m@ == "invalid mxid: "@ + l.user_id@,
            },
            (LoginStep::ResolveAlias { homeserver, user_id, access_token, alias }, LoginEvent::Resolved(room)) => next matches LoginStep::FetchMembers { homeserver: h, user_id: u, access_token: t, alias: a, room_id: r } && h@ == homeserver@ && u@ == user_id@ && t@ == access_token@ && a@ == alias@ && r@ == room@,
            (LoginStep::ResolveAlias { alias, .. }, LoginEvent::Error(e)) => next matches LoginStep::Failed(m) && m@ == "resolve admin room "@ + alias@ + ": "@ + e@,
            (LoginStep::FetchMembers { homeserver, user_id, access_token, alias, room_id }, LoginEvent::Members(members)) =>
                if strs(members@).contains(user_id@) {
                    next matches LoginStep::Done(s) && s.user_id@ == user_id@ && s.access_token@ == access_token@ && s.admin_room_id@ == room_id@ && s.homeserver@ == homeserver@
                } else {
                    next matches LoginStep::Failed(m) && m@ == "user "@ + user_id@ + " is not a member of the admin room "@ + alias@ + " (not a server admin)"@
                },
            (_, LoginEvent::Error(e)) => next matches LoginStep::Failed(m) && m@ == e@,
            _ => false,
        },
{
    match (step, event) {
        (LoginStep::Login { homeserver, user: _ }, LoginEvent::LoggedIn(l)) => {
            match admin_room_alias(configured_alias, l.user_id.as_str()) {
                Some(alias) => LoginStep::ResolveAlias {
                    homeserver,
                    user_id: l.user_id,
                    access_token: l.access_token,
                    alias,
                },
                None => {
                    let mut m = String::from_str("invalid mxid: ");
                    m.append(l.user_id.as_str());
                    LoginStep::Failed(m)
                },
            }
        },
        (LoginStep::ResolveAlias { homeserver, user_id, access_token, alias }, LoginEvent::Resolved(room)) => {
            LoginStep::FetchMembers { homeserver, user_id, access_token, alias, room_id: room }
        },
        (LoginStep::ResolveAlias { alias, .. }, LoginEvent::Error(e)) => {
            let mut m = String::from_str("resolve admin room ");
            m.append(alias.as_str());
            m.append(": ");
            m.append(e.as_str());
            LoginStep::Failed(m)
        },
        (LoginStep::FetchMembers { homeserver, user_id, access_token, alias, room_id }, LoginEvent::Members(members)) => {
            if is_member(&members, user_id.as_str()) {
                proof {
                    let k = choose|i: int| 0 <= i < members@.len() && (#[trigger] members@[i])@ == user_id@;
                    assert(strs(members@)[k] == user_id@);
                }
                LoginStep::Done(Session { user_id, access_token, admin_room_id: room_id, homeserver })
            } else {
                proof {
                    assert forall|i: int| 0 <= i < strs(members@).len() implies strs(members@)[i] != user_id@ by {
                        assert(strs(members@)[i] == members@[i]@);
                    }
                }
                let mut m = String::from_str("user ");
                m.append(user_id.as_str());
                m.append(" is not a member of the admin room ");
                m.append(alias.as_str());
                m.append(" (not a server admin)");
                LoginStep::Failed(m)
            }
        },
        (_, LoginEvent::Error(e)) => LoginStep::Failed(e),
        _ => {
            proof {
                assert(false);
            }
            LoginStep::Failed(String::new())
        },
    }
}

// ---------------------------------------------------------------------------
// Module pages
// ---------------------------------------------------------------------------

/// What a module page shows after running one of its commands: the command
/// as run, and either the bot's reply (as sent and rendered from markdown,
/// with its sender) or the error of the round-trip.
#[derive(Debug, Clone)]
pub struct CommandResult {
    pub ran_cmd: String,
    pub reply_raw: Option<String>,
    pub reply_html: Option<String>,
    pub reply_sender: Option<String>,
    pub error: Option<String>,
}

/// The result section of a module page.
pub fn command_result(ran_cmd: &str, outcome: &Result<BotReply, String>) -> (c: CommandResult)
    ensures
        c.ran_cmd@ == ran_cmd@,
        match outcome {
            Ok(r) => {
                &&& c.reply_raw matches Some(raw) && raw@ == r.body@
                &&& c.reply_html matches Some(h) && h@ == markdown_html(r.body@)
                &&& c.reply_sender matches Some(s) && s@ == r.sender@
                &&& c.error is None
            },
            Err(e) => {
                &&& c.reply_raw is None
                &&& c.reply_html is None
                &&& c.reply_sender is None
                &&& c.error matches Some(m) && m@ == e@
            },
        },
{
    match outcome {
        Ok(r) => CommandResult {
            ran_cmd: String::from_str(ran_cmd),
            reply_raw: Some(String::from_str(r.body.as_str())),
            reply_html: Some(markdown_to_html(r.body.as_str())),
            reply_sender: Some(String::from_str(r.sender.as_str())),
            error: None,
        },
        Err(e) => CommandResult {
            ran_cmd: String::from_str(ran_cmd),
            reply_raw: None,
            reply_html: None,
            reply_sender: None,
            error: Some(String::from_str(e.as_str())),
        },
    }
}

} // verus!
