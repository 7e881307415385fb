//! Whether models run on this machine or somewhere else.

use crate::text::{
    chars_of, digit_value, digits_value, joined, option_text, text_of, texts, trim, trimmed,
};
use vstd::prelude::*;
use vstd::string::*;

verus! {

/// The host and the port of an address, if the text is one.
pub uninterp spec fn url_parts(text: Seq<char>) -> Option<(Option<Seq<char>>, Option<u16>)>;

/// The host and the port of an address, as strings.
pub open spec fn parts_view(parts: Option<(Option<String>, Option<u16>)>) -> Option<
    (Option<Seq<char>>, Option<u16>),
> {
    match parts {
        Some((host, port)) => Some((option_text(host), port)),
        None => None,
    }
}

/// `reqwest::Url::parse`, with `host_str` and `port_or_known_default` of the
/// result, all of which depend on the text alone.
#[verifier::external_body]
fn parse_url(text: &str) -> (r: Option<(Option<String>, Option<u16>)>)
    ensures
        parts_view(r) == url_parts(text@),
{
    let url = reqwest::Url::parse(text).ok()?;
    Some((url.host_str().map(str::to_string), url.port_or_known_default()))
}

/// The brackets around an address of the sixth version.
pub open spec fn is_bracket(c: char) -> bool {
    c == '[' || c == ']'
}

/// A host without the brackets around it.
pub open spec fn without_brackets(host: Seq<char>) -> Seq<char>
    decreases host.len(),
{
    if host.len() > 0 && is_bracket(host[0]) {
        without_brackets(host.drop_first())
    } else if host.len() > 0 && is_bracket(host.last()) {
        without_brackets(host.drop_last())
    } else {
        host
    }
}

/// An ASCII letter in lower case; any other character as it is.
pub open spec fn ascii_lower(c: char) -> char {
    if 'A' <= c && c <= 'Z' {
        ((c as u32 + 32) as u8) as char
    } else {
        c
    }
}

/// Whether two texts are the same but for the case of ASCII letters.
pub open spec fn same_ignoring_case(a: Seq<char>, b: Seq<char>) -> bool {
    a.len() == b.len() && forall|i: int|
        0 <= i < a.len() ==> ascii_lower(#[trigger] a[i]) == ascii_lower(b[i])
}

/// How many digits a text begins with.
pub open spec fn leading_digits(s: Seq<char>) -> nat
    decreases s.len(),
{
    if s.len() > 0 && digit_value(s[0]) is Some {
        1 + leading_digits(s.drop_first())
    } else {
        0
    }
}

/// The number that a text begins with, and what follows it, if it is a number
/// up to 255 without leading zeros.
pub open spec fn octet(s: Seq<char>) -> Option<(nat, Seq<char>)> {
    let n = leading_digits(s);
    let value = digits_value(s.subrange(0, n as int));
    if 1 <= n <= 3 && value is Some && value->0 <= 255 && (n == 1 || s[0] != '0') {
        Some((value->0, s.subrange(n as int, s.len() as int)))
    } else {
        None
    }
}

/// Whether a text is this many further numbers, each behind a point.
pub open spec fn is_octets(s: Seq<char>, count: nat) -> bool
    decreases count,
{
    if count == 0 {
        s.len() == 0
    } else {
        s.len() > 0 && s[0] == '.' && match octet(s.drop_first()) {
            Some((value, rest)) => is_octets(rest, (count - 1) as nat),
            None => false,
        }
    }
}

/// Whether a host is this machine: its name, an address of the fourth version
/// that begins with 127, or the address of the sixth version, all as a URL
/// writes them.
pub open spec fn is_loopback(host: Seq<char>) -> bool {
    ||| same_ignoring_case(host, "localhost"@)
    ||| match octet(host) {
        Some((value, rest)) => value == 127 && is_octets(rest, 3),
        None => false,
    }
    ||| host == "::1"@
}

/// Where the models run.
#[derive(Debug, PartialEq, Eq)]
pub enum AiEndpointStatus {
    Local,
    Remote { hostname: String },
    Unavailable,
}

/// Where the models run, as texts.
pub enum StatusView {
    Local,
    Remote { hostname: Seq<char> },
    Unavailable,
}

impl View for AiEndpointStatus {
    type V = StatusView;

    open spec fn view(&self) -> StatusView {
        match *self {
            AiEndpointStatus::Local => StatusView::Local,
            AiEndpointStatus::Remote { hostname } => StatusView::Remote { hostname: hostname@ },
            AiEndpointStatus::Unavailable => StatusView::Unavailable,
        }
    }
}

/// The status of a host.
pub open spec fn status_of_host(host: Option<Seq<char>>) -> StatusView {
    match host {
        None => StatusView::Unavailable,
        Some(host) => {
            let name = without_brackets(host);
            if is_loopback(name) {
                StatusView::Local
            } else {
                StatusView::Remote { hostname: name }
            }
        },
    }
}

/// The status of an address.
pub open spec fn status_of_url(url: Seq<char>) -> StatusView {
    match url_parts(url) {
        None => StatusView::Unavailable,
        Some((host, port)) => status_of_host(host),
    }
}

fn strip_brackets(host: &str) -> (r: String)
    ensures
        r@ == without_brackets(host@),
{
    let chars = chars_of(host);
    let mut from: usize = 0;
    let mut to: usize = chars.len();
    assert(chars@.subrange(0, chars@.len() as int) =~= chars@);
    while from < to && (is_bracket_char(chars[from]) || is_bracket_char(chars[to - 1]))
        invariant
            from <= to <= chars@.len(),
            without_brackets(chars@.subrange(from as int, to as int)) == without_brackets(chars@),
        decreases to - from,
    {
        let ghost here = chars@.subrange(from as int, to as int);
        assert(here[0] == chars@[from as int]);
        assert(here.last() == chars@[to - 1]);
        if is_bracket_char(chars[from]) {
            assert(here.drop_first() =~= chars@.subrange(from + 1, to as int));
            from = from + 1;
        } else {
            assert(here.drop_last() =~= chars@.subrange(from as int, to - 1));
            to = to - 1;
        }
    }
    text_of(&chars, from, to)
}

fn is_bracket_char(c: char) -> (r: bool)
    ensures
        r == is_bracket(c),
{
    c == '[' || c == ']'
}

fn lower(c: char) -> (r: char)
    ensures
        r == ascii_lower(c),
{
    if 'A' <= c && c <= 'Z' {
        ((c as u32 + 32) as u8) as char
    } else {
        c
    }
}

fn equal_ignoring_case(a: &Vec<char>, b: &Vec<char>) -> (r: bool)
    ensures
        r == same_ignoring_case(a@, b@),
{
    if a.len() != b.len() {
        return false;
    }
    let mut i: usize = 0;
    while i < a.len()
        invariant
            a@.len() == b@.len(),
            i <= a@.len(),
            forall|k: int| 0 <= k < i ==> ascii_lower(#[trigger] a@[k]) == ascii_lower(b@[k]),
        decreases a@.len() - i,
    {
        if lower(a[i]) != lower(b[i]) {
            assert(ascii_lower(a@[i as int]) != ascii_lower(b@[i as int]));
            return false;
        }
        i = i + 1;
    }
    true
}

pub(crate) proof fn lemma_leading_digits(s: Seq<char>, n: int)
    requires
        0 <= n <= s.len(),
        forall|k: int| 0 <= k < n ==> digit_value(#[trigger] s[k]) is Some,
        n < s.len() ==> digit_value(s[n]) is None,
    ensures
        leading_digits(s) == n,
    decreases s.len(),
{
    if n > 0 {
        assert(digit_value(s[0]) is Some);
        let rest = s.drop_first();
        assert forall|k: int| 0 <= k < n - 1 implies digit_value(#[trigger] rest[k]) is Some by {
            assert(rest[k] == s[k + 1]);
        }
        lemma_leading_digits(rest, n - 1);
    }
}

proof fn lemma_digits_have_value(s: Seq<char>)
    requires
        forall|k: int| 0 <= k < s.len() ==> digit_value(#[trigger] s[k]) is Some,
    ensures
        digits_value(s) is Some,
    decreases s.len(),
{
    if s.len() > 0 {
        let rest = s.drop_last();
        assert forall|k: int| 0 <= k < rest.len() implies digit_value(#[trigger] rest[k]) is Some by {
            assert(rest[k] == s[k]);
        }
        lemma_digits_have_value(rest);
        assert(digit_value(s[s.len() - 1]) is Some);
    }
}

/// The number that the characters from `at` on begin with, and where it ends.
fn read_octet(chars: &Vec<char>, at: usize) -> (r: Option<(u16, usize)>)
    requires
        at <= chars@.len(),
    ensures
        ({
            let here = chars@.subrange(at as int, chars@.len() as int);
            match r {
                Some((value, next)) => at <= next <= chars@.len() && octet(here) == Some(
                    (value as nat, chars@.subrange(next as int, chars@.len() as int)),
                ),
                None => octet(here) is None,
            }
        }),
{
    let ghost here = chars@.subrange(at as int, chars@.len() as int);
    let mut end: usize = at;
    while end < chars.len() && '0' <= chars[end] && chars[end] <= '9'
        invariant
            at <= end <= chars@.len(),
            here == chars@.subrange(at as int, chars@.len() as int),
            forall|k: int| 0 <= k < end - at ==> digit_value(#[trigger] here[k]) is Some,
        decreases chars@.len() - end,
    {
        assert(here[end - at] == chars@[end as int]);
        end = end + 1;
    }
    let n: usize = end - at;
    proof {
        if end < chars@.len() {
            assert(here[n as int] == chars@[end as int]);
        }
        lemma_leading_digits(here, n as int);
        assert(here.subrange(n as int, here.len() as int) =~= chars@.subrange(
            end as int,
            chars@.len() as int,
        ));
    }
    if n < 1 || n > 3 || (n > 1 && chars[at] == '0') {
        return None;
    }
    let ghost digits = here.subrange(0, n as int);
    let mut value: u16 = 0;
    let mut k: usize = 0;
    assert(digits.subrange(0, 0) =~= Seq::<char>::empty());
    while k < n
        invariant
            1 <= n <= 3,
            k <= n,
            at + n == end,
            end <= chars@.len(),
            here == chars@.subrange(at as int, chars@.len() as int),
            digits == here.subrange(0, n as int),
            forall|j: int| 0 <= j < n ==> digit_value(#[trigger] here[j]) is Some,
            digits_value(digits.subrange(0, k as int)) == Some(value as nat),
            k == 0 ==> value == 0,
            k == 1 ==> value <= 9,
            k == 2 ==> value <= 99,
            k == 3 ==> value <= 999,
        decreases n - k,
    {
        proof {
            assert(digits.subrange(0, k + 1).drop_last() =~= digits.subrange(0, k as int));
            assert(digits.subrange(0, k + 1).last() == here[k as int]);
            assert(here[k as int] == chars@[at + k]);
            assert(digit_value(here[k as int]) is Some);
        }
        let c = chars[at + k];
        value = value * 10 + (c as u32 - '0' as u32) as u16;
        k = k + 1;
    }
    assert(digits.subrange(0, n as int) =~= digits);
    if value > 255 {
        return None;
    }
    Some((value, end))
}

/// Whether a host is this machine.
pub fn host_is_loopback(host: &str) -> (r: bool)
    ensures
        r == is_loopback(host@),
{
    let chars = chars_of(host);
    if equal_ignoring_case(&chars, &chars_of("localhost")) {
        return true;
    }
    if crate::text::same_text(host, "::1") {
        return true;
    }
    assert(chars@.subrange(0, chars@.len() as int) =~= chars@);
    match read_octet(&chars, 0) {
        None => false,
        Some((value, next)) => {
            if value != 127 {
                return false;
            }
            let mut at: usize = next;
            let mut count: u8 = 3;
            let ghost rest = chars@.subrange(next as int, chars@.len() as int);
            while count > 0
                invariant
                    count <= 3,
                    at <= chars@.len(),
                    is_loopback(host@) == is_octets(rest, 3),
                    is_octets(chars@.subrange(at as int, chars@.len() as int), count as nat)
                        == is_octets(rest, 3),
                decreases count,
            {
                let ghost here = chars@.subrange(at as int, chars@.len() as int);
                if at == chars.len() || chars[at] != '.' {
                    return false;
                }
                assert(here.drop_first() =~= chars@.subrange(at + 1, chars@.len() as int));
                match read_octet(&chars, at + 1) {
                    None => {
                        return false;
                    },
                    Some((_, end)) => {
                        at = end;
                    },
                }
                count = count - 1;
            }
            at == chars.len()
        },
    }
}

/// The status of a host.
pub fn host_status(host: &Option<String>) -> (r: AiEndpointStatus)
    ensures
        r@ == status_of_host(option_text(*host)),
{
    match host {
        None => AiEndpointStatus::Unavailable,
        Some(host) => {
            let hostname = strip_brackets(host.as_str());
            if host_is_loopback(hostname.as_str()) {
                AiEndpointStatus::Local
            } else {
                AiEndpointStatus::Remote { hostname }
            }
        },
    }
}

/// What each model role is served by: a base URL, or nothing where no endpoint
/// is bound to the role.
#[derive(Debug, PartialEq, Eq)]
pub struct RoleEndpoints {
    pub chat: Option<String>,
    pub embedding: Option<String>,
    pub vision: Option<String>,
}

/// The status of the endpoint of one role.
pub open spec fn role_status(base_url: Option<Seq<char>>) -> StatusView {
    match base_url {
        Some(url) => status_of_url(url),
        None => StatusView::Unavailable,
    }
}

/// The remote hosts of the roles, each behind the name of its role.
pub open spec fn remote_hosts(roles: Seq<(Seq<char>, StatusView)>) -> Seq<Seq<char>>
    decreases roles.len(),
{
    if roles.len() == 0 {
        Seq::empty()
    } else {
        let before = remote_hosts(roles.drop_last());
        match roles.last().1 {
            StatusView::Remote { hostname } => before.push(roles.last().0 + "："@ + hostname),
            _ => before,
        }
    }
}

/// The status of all roles together.
pub open spec fn combined_status(
    chat: StatusView,
    embedding: StatusView,
    vision: StatusView,
) -> StatusView {
    let remote = remote_hosts(
        seq![("对话"@, chat), ("Embedding"@, embedding), ("视觉"@, vision)],
    );
    if chat is Unavailable || embedding is Unavailable || vision is Unavailable {
        StatusView::Unavailable
    } else if remote.len() == 0 {
        StatusView::Local
    } else {
        StatusView::Remote { hostname: joined(remote, "；"@) }
    }
}

fn role_label(label: &str, hostname: &str) -> (r: String)
    ensures
        r@ == label@ + "："@ + hostname@,
{
    let mut out = label.to_owned();
    out.push_str("：");
    out.push_str(hostname);
    out
}

/// The status of all roles together.
pub fn combine_status(
    chat: &AiEndpointStatus,
    embedding: &AiEndpointStatus,
    vision: &AiEndpointStatus,
) -> (r: AiEndpointStatus)
    ensures
        r@ == combined_status(chat@, embedding@, vision@),
{
    let mut remote: Vec<String> = Vec::new();
    let ghost roles = seq![
        ("对话"@, chat@),
        ("Embedding"@, embedding@),
        ("视觉"@, vision@),
    ];
    proof {
        assert(roles.drop_last() =~= seq![("对话"@, chat@), ("Embedding"@, embedding@)]);
        assert(roles.drop_last().drop_last() =~= seq![("对话"@, chat@)]);
        assert(roles.drop_last().drop_last().drop_last() =~= Seq::empty());
        reveal_with_fuel(remote_hosts, 4);
        assert(texts(remote@) =~= Seq::<Seq<char>>::empty());
    }
    match chat {
        AiEndpointStatus::Unavailable => {
            return AiEndpointStatus::Unavailable;
        },
        AiEndpointStatus::Local => {},
        AiEndpointStatus::Remote { hostname } => {
            let ghost had = remote@;
            let label = role_label("对话", hostname.as_str());
            remote.push(label);
            assert(texts(remote@) =~= texts(had).push(label@));
        },
    }
    match embedding {
        AiEndpointStatus::Unavailable => {
            return AiEndpointStatus::Unavailable;
        },
        AiEndpointStatus::Local => {},
        AiEndpointStatus::Remote { hostname } => {
            let ghost had = remote@;
            let label = role_label("Embedding", hostname.as_str());
            remote.push(label);
            assert(texts(remote@) =~= texts(had).push(label@));
        },
    }
    match vision {
        AiEndpointStatus::Unavailable => {
            return AiEndpointStatus::Unavailable;
        },
        AiEndpointStatus::Local => {},
        AiEndpointStatus::Remote { hostname } => {
            let ghost had = remote@;
            let label = role_label("视觉", hostname.as_str());
            remote.push(label);
            assert(texts(remote@) =~= texts(had).push(label@));
        },
    }
    assert(texts(remote@) =~= remote_hosts(roles));
    if remote.len() == 0 {
        AiEndpointStatus::Local
    } else {
        AiEndpointStatus::Remote { hostname: crate::text::join(&remote, "；") }
    }
}

impl AiEndpointStatus {
    /// The status of an endpoint with a base URL that was brought into its
    /// normal form.
    pub fn from_base_url(base_url: &str) -> (r: Self)
        ensures
            r@ == status_of_url(base_url@),
    {
        match parse_url(base_url) {
            None => AiEndpointStatus::Unavailable,
            Some((host, _)) => host_status(&host),
        }
    }

    /// The status of the endpoints of all roles.
    pub fn from_settings(endpoints: &RoleEndpoints) -> (r: Self)
        ensures
            r@ == combined_status(
                role_status(option_text(endpoints.chat)),
                role_status(option_text(endpoints.embedding)),
                role_status(option_text(endpoints.vision)),
            ),
    {
        combine_status(
            &Self::of_role(&endpoints.chat),
            &Self::of_role(&endpoints.embedding),
            &Self::of_role(&endpoints.vision),
        )
    }

    fn of_role(base_url: &Option<String>) -> (r: Self)
        ensures
            r@ == role_status(option_text(*base_url)),
    {
        match base_url {
            Some(url) => Self::from_base_url(url.as_str()),
            None => AiEndpointStatus::Unavailable,
        }
    }

    /// The status of the endpoints in the settings, if these could be read.
    pub fn current(endpoints: Option<&RoleEndpoints>) -> (r: Self)
        ensures
            r@ == (match endpoints {
                Some(endpoints) => combined_status(
                    role_status(option_text(endpoints.chat)),
                    role_status(option_text(endpoints.embedding)),
                    role_status(option_text(endpoints.vision)),
                ),
                None => StatusView::Unavailable,
            }),
    {
        match endpoints {
            Some(endpoints) => Self::from_settings(endpoints),
            None => AiEndpointStatus::Unavailable,
        }
    }

    /// What the status is called.
    pub fn label(&self) -> (r: String)
        ensures
            r@ == self@.label(),
    {
        match self {
            AiEndpointStatus::Local => "本地".to_owned(),
            AiEndpointStatus::Remote { hostname } => {
                let mut out = "远程 · ".to_owned();
                out.push_str(hostname.as_str());
                out
            },
            AiEndpointStatus::Unavailable => "端点不可用".to_owned(),
        }
    }

    /// Whether the reader should be warned.
    pub fn is_warning(&self) -> (r: bool)
        ensures
            r == !(self@ is Local),
    {
        match self {
            AiEndpointStatus::Local => false,
            _ => true,
        }
    }

    /// Whether two statuses are the same.
    pub fn same(&self, other: &AiEndpointStatus) -> (r: bool)
        ensures
            r == (self@ == other@),
    {
        match (self, other) {
            (AiEndpointStatus::Local, AiEndpointStatus::Local) => true,
            (
                AiEndpointStatus::Remote { hostname: a },
                AiEndpointStatus::Remote { hostname: b },
            ) => crate::text::same_text(a.as_str(), b.as_str()),
            (AiEndpointStatus::Unavailable, AiEndpointStatus::Unavailable) => true,
            _ => false,
        }
    }
}

impl StatusView {
    /// What the status is called.
    pub open spec fn label(self) -> Seq<char> {
        match self {
            StatusView::Local => "本地"@,
            StatusView::Remote { hostname } => "远程 · "@ + hostname,
            StatusView::Unavailable => "端点不可用"@,
        }
    }
}

/// The port that Ollama listens on.
pub const OLLAMA_PORT: u16 = 11434;

/// Whether an address is that of Ollama on this machine.
pub open spec fn is_local_ollama(parts: Option<(Option<Seq<char>>, Option<u16>)>) -> bool {
    match parts {
        Some((Some(host), Some(port))) => is_loopback(without_brackets(host)) && port
            == OLLAMA_PORT,
        _ => false,
    }
}

/// Whether the host and port of an address are those of Ollama on this machine.
pub fn parts_are_local_ollama(parts: &Option<(Option<String>, Option<u16>)>) -> (r: bool)
    ensures
        r == is_local_ollama(parts_view(*parts)),
{
    match parts {
        Some((Some(host), Some(port))) => host_is_loopback(
            strip_brackets(host.as_str()).as_str(),
        ) && *port == OLLAMA_PORT,
        _ => false,
    }
}

/// Whether an address is that of Ollama on this machine.
pub fn looks_like_local_ollama(endpoint: &str) -> (r: bool)
    ensures
        r == is_local_ollama(url_parts(trimmed(endpoint@))),
{
    parts_are_local_ollama(&parse_url(trim(endpoint).as_str()))
}

/// The commands that fetch some models.
pub open spec fn pull_commands(models: Seq<Seq<char>>) -> Seq<Seq<char>> {
    models.map_values(|model: Seq<char>| "ollama pull "@ + model)
}

/// The commands that fetch missing models, where Ollama runs on this machine.
pub fn ollama_pull_commands(endpoint: &str, missing_models: &Vec<String>) -> (r: Vec<String>)
    ensures
        texts(r@) == (if is_local_ollama(url_parts(trimmed(endpoint@))) {
            pull_commands(texts(missing_models@))
        } else {
            Seq::empty()
        }),
{
    let mut out: Vec<String> = Vec::new();
    assert(texts(out@) =~= Seq::<Seq<char>>::empty());
    if !looks_like_local_ollama(endpoint) {
        return out;
    }
    let ghost expected = pull_commands(texts(missing_models@));
    let mut i: usize = 0;
    while i < missing_models.len()
        invariant
            i <= missing_models@.len(),
            expected == pull_commands(texts(missing_models@)),
            texts(out@) =~= expected.subrange(0, i as int),
        decreases missing_models@.len() - i,
    {
        let mut command = "ollama pull ".to_owned();
        command.push_str(missing_models[i].as_str());
        let ghost had = out@;
        out.push(command);
        i = i + 1;
        assert(texts(out@) =~= texts(had).push(command@));
        assert(expected.subrange(0, i as int) =~= expected.subrange(0, i - 1).push(
            expected[i - 1],
        ));
    }
    assert(expected.subrange(0, expected.len() as int) =~= expected);
    out
}

/// All roles together are local only where each of them is, and no remote host
/// is left out of the label.
pub proof fn the_status_is_local_only_where_every_role_is(
    chat: StatusView,
    embedding: StatusView,
    vision: StatusView,
)
    ensures
        combined_status(chat, embedding, vision) is Local <==> chat is Local && embedding is Local
            && vision is Local,
        combined_status(chat, embedding, vision) is Unavailable <==> chat is Unavailable
            || embedding is Unavailable || vision is Unavailable,
{
    let roles = seq![("对话"@, chat), ("Embedding"@, embedding), ("视觉"@, vision)];
    assert(roles.drop_last() =~= seq![("对话"@, chat), ("Embedding"@, embedding)]);
    assert(roles.drop_last().drop_last() =~= seq![("对话"@, chat)]);
    assert(roles.drop_last().drop_last().drop_last() =~= Seq::empty());
    reveal_with_fuel(remote_hosts, 4);
}

} // verus!
