//! The records the helper keeps and exchanges, and the rules that shape a
//! post before it is sent.

use vstd::prelude::*;
use crate::json::{status_json, status_text};

verus! {

/// The LinkedIn app's client credentials.
pub struct Credentials {
    pub client_id: String,
    pub client_secret: String,
}

/// The mathematical model of [`Credentials`].
pub struct CredentialsView {
    pub client_id: Seq<char>,
    pub client_secret: Seq<char>,
}

impl View for Credentials {
    type V = CredentialsView;

    open spec fn view(&self) -> CredentialsView {
        CredentialsView { client_id: self.client_id@, client_secret: self.client_secret@ }
    }
}

/// An OAuth token and the member it belongs to.
pub struct Token {
    pub access_token: String,
    pub refresh_token: String,
    pub person_id: String,
    pub expires_in: u64,
}

/// The mathematical model of a [`Token`].
pub struct TokenView {
    pub access_token: Seq<char>,
    pub refresh_token: Seq<char>,
    pub person_id: Seq<char>,
    pub expires_in: u64,
}

impl View for Token {
    type V = TokenView;

    open spec fn view(&self) -> TokenView {
        TokenView {
            access_token: self.access_token@,
            refresh_token: self.refresh_token@,
            person_id: self.person_id@,
            expires_in: self.expires_in,
        }
    }
}

impl Token {
    /// A copy of this token.
    pub fn duplicate(&self) -> (r: Token)
        ensures
            r@ == self@,
    {
        Token {
            access_token: self.access_token.clone(),
            refresh_token: self.refresh_token.clone(),
            person_id: self.person_id.clone(),
            expires_in: self.expires_in,
        }
    }

    /// The status endpoint's answer for this token: whether an access token,
    /// a person id and a refresh token are present.
    pub fn status_json(&self) -> (r: String)
        ensures
            r@ == status_text(
                self.access_token@.len() != 0,
                self.person_id@.len() != 0,
                self.refresh_token@.len() != 0,
            ),
    {
        status_json(
            !self.access_token.as_str().is_empty(),
            !self.person_id.as_str().is_empty(),
            !self.refresh_token.as_str().is_empty(),
        )
    }
}

/// The value a post request takes for `visibility` when it names none.
pub fn default_visibility() -> (r: String)
    ensures
        r@ == "PUBLIC"@,
{
    String::from_str("PUBLIC")
}

/// A request to publish a post.
pub struct PostRequest {
    pub commentary: String,
    pub visibility: String,
}

/// A published post: its id and its address in the feed.
pub struct PostResponse {
    pub post_id: String,
    pub post_url: String,
}

/// The characters that LinkedIn's "Little Text" format reserves.
pub open spec fn is_reserved(c: char) -> bool {
    c == '(' || c == ')' || c == '<' || c == '>' || c == '@' || c == '|' || c == '{' || c == '}'
        || c == '[' || c == ']' || c == '*' || c == '_' || c == '~' || c == '\\'
}

/// One character as it stands in escaped commentary.
pub open spec fn escape_char(c: char) -> Seq<char> {
    if is_reserved(c) {
        seq!['\\', c]
    } else {
        seq![c]
    }
}

/// Commentary with every reserved character preceded by a backslash.
pub open spec fn escaped(s: Seq<char>) -> Seq<char> {
    s.flat_map(|c: char| escape_char(c))
}

/// Reading escaped text back: a backslash stands for the character after it.
pub open spec fn unescaped(s: Seq<char>) -> Seq<char>
    decreases s.len(),
{
    if s.len() == 0 {
        seq![]
    } else if s[0] == '\\' && s.len() >= 2 {
        seq![s[1]] + unescaped(s.skip(2))
    } else {
        seq![s[0]] + unescaped(s.skip(1))
    }
}

fn is_reserved_char(c: char) -> (r: bool)
    ensures
        r == is_reserved(c),
{
    c == '(' || c == ')' || c == '<' || c == '>' || c == '@' || c == '|' || c == '{' || c == '}'
        || c == '[' || c == ']' || c == '*' || c == '_' || c == '~' || c == '\\'
}

/// Escapes LinkedIn's reserved characters in `commentary`, so that LinkedIn
/// shows them as written instead of reading them as markup.
pub fn escape_little_text(commentary: &str) -> (r: String)
    ensures
        r@ == escaped(commentary@),
{
    let cs = crate::text::chars_of(commentary);
    let mut out = String::new();
    let mut i: usize = 0;
    while i < cs.len()
        invariant
            cs@ == commentary@,
            i <= cs@.len(),
            out@ == escaped(cs@.take(i as int)),
        decreases cs@.len() - i,
    {
        let c = cs[i];
        proof {
            cs@.lemma_flat_map_take_append(|c: char| escape_char(c), i as int);
        }
        if is_reserved_char(c) {
            crate::text::push_char(&mut out, '\\');
        }
        crate::text::push_char(&mut out, c);
        assert(out@ =~= escaped(cs@.take(i + 1)));
        i = i + 1;
    }
    assert(cs@.take(cs@.len() as int) =~= cs@);
    out
}

/// Escaping loses nothing: reading the escaped commentary back gives the
/// commentary as written.
pub proof fn law_unescape_escaped(s: Seq<char>)
    ensures
        unescaped(escaped(s)) == s,
    decreases s.len(),
{
    if s.len() == 0 {
        assert(escaped(s) =~= seq![]);
    } else {
        crate::text::lemma_flat_map_first(s, |c: char| escape_char(c));
        let rest = escaped(s.drop_first());
        law_unescape_escaped(s.drop_first());
        if is_reserved(s[0]) {
            assert((seq!['\\', s[0]] + rest).skip(2) =~= rest);
        } else {
            assert((seq![s[0]] + rest).skip(1) =~= rest);
        }
        assert(seq![s[0]] + s.drop_first() =~= s);
    }
}

/// The characters LinkedIn's "Little Text" format reserves, as listed for
/// the helper: `( ) < > @ | { } [ ] * _ ~ \`.
pub open spec fn little_text_reserved() -> Seq<char> {
    seq!['(', ')', '<', '>', '@', '|', '{', '}', '[', ']', '*', '_', '~', '\\']
}

proof fn lemma_escaped_concat(s: Seq<char>, t: Seq<char>)
    ensures
        escaped(s + t) == escaped(s) + escaped(t),
    decreases t.len(),
{
    let f = |c: char| escape_char(c);
    if t.len() == 0 {
        assert(s + t =~= s);
        assert(escaped(t) =~= seq![]);
        assert(escaped(s) + escaped(t) =~= escaped(s));
    } else {
        let u = t.drop_last();
        let x = t.last();
        lemma_escaped_concat(s, u);
        assert(s + t =~= (s + u).push(x));
        assert(t =~= u.push(x));
        (s + u).lemma_flat_map_push(f, x);
        u.lemma_flat_map_push(f, x);
        assert(escaped(s + t) =~= escaped(s) + escaped(u) + escape_char(x));
    }
}

proof fn lemma_reserved_listed(c: char)
    ensures
        is_reserved(c) <==> little_text_reserved().contains(c),
{
    let l = little_text_reserved();
    if is_reserved(c) {
        if c == '(' { assert(l[0] == c); } else if c == ')' { assert(l[1] == c); }
        else if c == '<' { assert(l[2] == c); } else if c == '>' { assert(l[3] == c); }
        else if c == '@' { assert(l[4] == c); } else if c == '|' { assert(l[5] == c); }
        else if c == '{' { assert(l[6] == c); } else if c == '}' { assert(l[7] == c); }
        else if c == '[' { assert(l[8] == c); } else if c == ']' { assert(l[9] == c); }
        else if c == '*' { assert(l[10] == c); } else if c == '_' { assert(l[11] == c); }
        else if c == '~' { assert(l[12] == c); } else { assert(l[13] == c); }
    }
}

proof fn lemma_escaped_single(c: char)
    ensures
        escaped(seq![c]) == escape_char(c),
{
    let f = |c: char| escape_char(c);
    Seq::<char>::empty().lemma_flat_map_push(f, c);
    assert(Seq::<char>::empty().push(c) =~= seq![c]);
    assert(Seq::<char>::empty().flat_map(f) =~= Seq::<char>::empty());
}

/// Escaping is done character by character, and it changes exactly the
/// listed reserved characters: each of them gains a backslash in front,
/// every other character (a period, a letter, `#`, ...) stands as it is, and
/// a text without reserved characters is sent unchanged.
pub proof fn law_escape_changes_only_reserved(s: Seq<char>, t: Seq<char>, c: char)
    ensures
        escaped(s + t) == escaped(s) + escaped(t),
        little_text_reserved().contains(c) ==> escaped(seq![c]) == seq!['\\', c],
        !little_text_reserved().contains(c) ==> escaped(seq![c]) == seq![c],
        (forall|i: int| 0 <= i < s.len() ==> !little_text_reserved().contains(#[trigger] s[i]))
            ==> escaped(s) == s,
    decreases s.len(),
{
    lemma_escaped_concat(s, t);
    lemma_reserved_listed(c);
    lemma_escaped_single(c);
    if s.len() > 0 && (forall|i: int| 0 <= i < s.len() ==> !little_text_reserved().contains(#[trigger] s[i])) {
        let u = s.drop_last();
        let x = s.last();
        assert forall|i: int| 0 <= i < u.len() implies !little_text_reserved().contains(#[trigger] u[i]) by {
            assert(u[i] == s[i]);
        }
        law_escape_changes_only_reserved(u, seq![x], x);
        assert(!little_text_reserved().contains(s[s.len() - 1]));
        assert(u + seq![x] =~= s);
    } else if s.len() == 0 {
        assert(escaped(s) =~= s);
    }
}

} // verus!
