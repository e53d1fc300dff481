//! The optional correction step: building the chat-completion request,
//! and reading the reply leniently.
//!
//! The reply's content is expected to be a JSON object carrying the
//! corrected text, but models wrap it in code fences or prose; the
//! extractor peels that off. On any failure the raw transcript is used —
//! a correction step must never lose text.

use vstd::prelude::*;
use crate::codec::{prefix_of, quoted, quoted_into, take_corrected};
use crate::storage::LlmConfig;
use crate::text::{spec_trim, trim_chars, chars_of, string_from_chars, push_str_chars};

verus! {

/// The built-in correction prompt; the utterance replaces the `{text}`
/// placeholder.
pub open spec fn spec_default_prompt() -> Seq<char> {
    "\u{4f60}\u{662f}\u{4e00}\u{4e2a}\u{8bed}\u{97f3}\u{8bc6}\u{522b}\u{7ea0}\u{9519}\u{52a9}\u{624b}\u{3002}\u{7528}\u{6237}\u{4f1a}\u{63d0}\u{4f9b}\u{8bed}\u{97f3}\u{8bc6}\u{522b}\u{7684}\u{539f}\u{59cb}\u{6587}\u{672c}\u{ff0c}\u{5176}\u{4e2d}\u{53ef}\u{80fd}\u{5305}\u{542b}\u{ff1a}\n- \u{540c}\u{97f3}\u{5b57}/\u{8fd1}\u{97f3}\u{5b57}\u{9519}\u{8bef}\n- \u{8bed}\u{6cd5}\u{4e0d}\u{901a}\u{987a}\n- \u{6f0f}\u{5b57}\u{6216}\u{591a}\u{5b57}\n- \u{6807}\u{70b9}\u{7b26}\u{53f7}\u{95ee}\u{9898}\n\n\u{8bf7}\u{4fee}\u{6b63}\u{8fd9}\u{4e9b}\u{9519}\u{8bef}\u{ff0c}\u{4fdd}\u{6301}\u{539f}\u{610f}\u{4e0d}\u{53d8}\u{3002}\n\n\u{91cd}\u{8981}\u{89c4}\u{5219}\u{ff1a}\n1. \u{53ea}\u{4fee}\u{6b63}\u{660e}\u{663e}\u{7684}\u{9519}\u{8bef}\u{ff0c}\u{4e0d}\u{8981}\u{6539}\u{53d8}\u{8bed}\u{4e49}\u{6216}\u{98ce}\u{683c}\n2. \u{5982}\u{679c}\u{539f}\u{6587}\u{5df2}\u{7ecf}\u{6b63}\u{786e}\u{ff0c}\u{76f4}\u{63a5}\u{8fd4}\u{56de}\u{539f}\u{6587}\n3. \u{5fc5}\u{987b}\u{4ee5} JSON \u{683c}\u{5f0f}\u{8fd4}\u{56de}\u{7ed3}\u{679c}\n\n\u{8f93}\u{5165}\u{6587}\u{672c}\u{ff1a}{text}\n\n\u{8bf7}\u{4ee5}\u{5982}\u{4e0b} JSON \u{683c}\u{5f0f}\u{8fd4}\u{56de}\u{ff08}\u{4e0d}\u{8981}\u{5305}\u{542b}\u{5176}\u{4ed6}\u{5185}\u{5bb9}\u{ff09}\u{ff1a}\n{\"corrected\": \"\u{7ea0}\u{6b63}\u{540e}\u{7684}\u{6587}\u{672c}\"}"@
}

/// The built-in correction prompt.
pub fn get_default_llm_prompt() -> (r: String)
    ensures
        r@ == spec_default_prompt(),
{
    String::from_str(
        "\u{4f60}\u{662f}\u{4e00}\u{4e2a}\u{8bed}\u{97f3}\u{8bc6}\u{522b}\u{7ea0}\u{9519}\u{52a9}\u{624b}\u{3002}\u{7528}\u{6237}\u{4f1a}\u{63d0}\u{4f9b}\u{8bed}\u{97f3}\u{8bc6}\u{522b}\u{7684}\u{539f}\u{59cb}\u{6587}\u{672c}\u{ff0c}\u{5176}\u{4e2d}\u{53ef}\u{80fd}\u{5305}\u{542b}\u{ff1a}\n- \u{540c}\u{97f3}\u{5b57}/\u{8fd1}\u{97f3}\u{5b57}\u{9519}\u{8bef}\n- \u{8bed}\u{6cd5}\u{4e0d}\u{901a}\u{987a}\n- \u{6f0f}\u{5b57}\u{6216}\u{591a}\u{5b57}\n- \u{6807}\u{70b9}\u{7b26}\u{53f7}\u{95ee}\u{9898}\n\n\u{8bf7}\u{4fee}\u{6b63}\u{8fd9}\u{4e9b}\u{9519}\u{8bef}\u{ff0c}\u{4fdd}\u{6301}\u{539f}\u{610f}\u{4e0d}\u{53d8}\u{3002}\n\n\u{91cd}\u{8981}\u{89c4}\u{5219}\u{ff1a}\n1. \u{53ea}\u{4fee}\u{6b63}\u{660e}\u{663e}\u{7684}\u{9519}\u{8bef}\u{ff0c}\u{4e0d}\u{8981}\u{6539}\u{53d8}\u{8bed}\u{4e49}\u{6216}\u{98ce}\u{683c}\n2. \u{5982}\u{679c}\u{539f}\u{6587}\u{5df2}\u{7ecf}\u{6b63}\u{786e}\u{ff0c}\u{76f4}\u{63a5}\u{8fd4}\u{56de}\u{539f}\u{6587}\n3. \u{5fc5}\u{987b}\u{4ee5} JSON \u{683c}\u{5f0f}\u{8fd4}\u{56de}\u{7ed3}\u{679c}\n\n\u{8f93}\u{5165}\u{6587}\u{672c}\u{ff1a}{text}\n\n\u{8bf7}\u{4ee5}\u{5982}\u{4e0b} JSON \u{683c}\u{5f0f}\u{8fd4}\u{56de}\u{ff08}\u{4e0d}\u{8981}\u{5305}\u{542b}\u{5176}\u{4ed6}\u{5185}\u{5bb9}\u{ff09}\u{ff1a}\n{\"corrected\": \"\u{7ea0}\u{6b63}\u{540e}\u{7684}\u{6587}\u{672c}\"}",
    )
}

/// `t` with every occurrence of `needle` replaced by `repl`, scanning
/// left to right without overlap — as `str::replace` does it.
pub open spec fn replaced(t: Seq<char>, needle: Seq<char>, repl: Seq<char>) -> Seq<char>
    decreases t.len() when needle.len() >= 1
{
    if t.len() == 0 {
        Seq::empty()
    } else if prefix_of(needle, t) {
        repl + replaced(t.skip(needle.len() as int), needle, repl)
    } else {
        seq![t[0]] + replaced(t.skip(1), needle, repl)
    }
}

/// Replace every `needle` in `t` by `repl`.
pub fn replace_all(t: &Vec<char>, needle: &str, repl: &str) -> (r: Vec<char>)
    requires
        needle@.len() >= 1,
    ensures
        r@ == replaced(t@, needle@, repl@),
{
    let n = t.len();
    let m = needle.unicode_len();
    let mut out: Vec<char> = Vec::new();
    let mut i: usize = 0;
    proof {
        assert(t@.skip(0) =~= t@);
        assert(Seq::<char>::empty() + replaced(t@, needle@, repl@) =~= replaced(
            t@,
            needle@,
            repl@,
        ));
    }
    while i < n
        invariant
            i <= n,
            n == t@.len(),
            m == needle@.len(),
            m >= 1,
            out@ + replaced(t@.skip(i as int), needle@, repl@) == replaced(t@, needle@, repl@),
        decreases n - i,
    {
        match crate::codec::expect_lit(t, i, needle) {
            Some(j) => {
                push_str_chars(&mut out, repl);
                proof {
                    assert(t@.skip(i as int).skip(m as int) =~= t@.skip(j as int));
                    assert(out@ + replaced(t@.skip(j as int), needle@, repl@) =~= replaced(
                        t@,
                        needle@,
                        repl@,
                    ));
                }
                i = j;
            },
            None => {
                out.push(t[i]);
                proof {
                    assert(t@.skip(i as int)[0] == t@[i as int]);
                    assert(t@.skip(i as int).skip(1) =~= t@.skip(i + 1));
                    assert(out@ + replaced(t@.skip(i + 1), needle@, repl@) =~= replaced(
                        t@,
                        needle@,
                        repl@,
                    ));
                }
                i = i + 1;
            },
        }
    }
    proof {
        assert(replaced(t@.skip(n as int), needle@, repl@) =~= Seq::<char>::empty());
        assert(out@ =~= replaced(t@, needle@, repl@));
    }
    out
}

/// Correction is skipped — the raw transcript is used as it is — when
/// the step is disabled or no key is set.
pub fn should_skip_correction(cfg: &LlmConfig) -> (r: bool)
    ensures
        r == !crate::pipeline::correction_active(*cfg),
{
    !cfg.enabled || cfg.api_key.unicode_len() == 0
}

/// An egress proxy is used only when enabled and an address is set.
pub fn use_proxy(p: &crate::storage::ProxyConfig) -> (r: bool)
    ensures
        r == (p.enabled && p.url@.len() > 0),
{
    p.enabled && p.url.unicode_len() > 0
}

/// The prompt template in force: the user's custom prompt, or the
/// built-in one when none is set.
pub open spec fn spec_template(cfg: LlmConfig) -> Seq<char> {
    if cfg.custom_prompt@.len() == 0 {
        spec_default_prompt()
    } else {
        cfg.custom_prompt@
    }
}

/// The user prompt for one utterance: the template in force with the
/// utterance substituted for the `{text}` placeholder.
pub fn build_user_prompt(cfg: &LlmConfig, text: &str) -> (r: String)
    ensures
        r@ == replaced(spec_template(*cfg), "{text}"@, text@),
{
    proof {
        reveal_strlit("{text}");
    }
    let template = if cfg.custom_prompt.unicode_len() == 0 {
        get_default_llm_prompt()
    } else {
        cfg.custom_prompt.clone()
    };
    let tv = chars_of(template.as_str());
    let out = replace_all(&tv, "{text}", text);
    string_from_chars(&out)
}

/// `base` without trailing slashes.
pub open spec fn trim_slashes(s: Seq<char>) -> Seq<char>
    decreases s.len(),
{
    if s.len() > 0 && s.last() == '/' {
        trim_slashes(s.drop_last())
    } else {
        s
    }
}

/// The chat-completions endpoint under a base address, tolerating
/// trailing slashes on the base.
pub fn chat_completions_url(base_url: &str) -> (r: String)
    ensures
        r@ == trim_slashes(base_url@) + "/chat/completions"@,
{
    let v = chars_of(base_url);
    let mut end = v.len();
    proof {
        assert(v@.take(v@.len() as int) =~= v@);
    }
    while end > 0 && v[end - 1] == '/'
        invariant
            end <= v@.len(),
            v@ == base_url@,
            trim_slashes(base_url@) == trim_slashes(v@.take(end as int)),
        decreases end,
    {
        proof {
            assert(v@.take(end as int).drop_last() =~= v@.take(end - 1));
        }
        end = end - 1;
    }
    proof {
        if end > 0 {
            assert(v@.take(end as int).last() == v@[end - 1]);
        }
        assert(trim_slashes(v@.take(end as int)) == v@.take(end as int));
    }
    let mut out: Vec<char> = Vec::new();
    let mut i: usize = 0;
    while i < end
        invariant
            i <= end <= v@.len(),
            v@ == base_url@,
            out@ =~= v@.take(end as int).take(i as int),
        decreases end - i,
    {
        out.push(v[i]);
        i = i + 1;
    }
    proof {
        assert(out@ =~= v@.take(end as int));
    }
    push_str_chars(&mut out, "/chat/completions");
    string_from_chars(&out)
}

/// The request body sent to the corrector: one user message, and a
/// temperature of `tenths` tenths.
pub open spec fn chat_body(model: Seq<char>, content: Seq<char>, tenths: u8) -> Seq<char> {
    "{\"model\": "@ + (quoted(model) + (
    ", \"messages\": [{\"role\": \"user\", \"content\": "@ + (quoted(content) + (
    "}], \"temperature\": 0."@ + (seq![crate::codec::digit_char(tenths as int)] + "}"@)))))
}

/// Write the request body for one correction or connection-test call.
pub fn chat_request_body(model: &str, content: &str, tenths: u8) -> (r: String)
    requires
        tenths <= 9,
    ensures
        r@ == chat_body(model@, content@, tenths),
{
    let mut out: Vec<char> = Vec::new();
    push_str_chars(&mut out, "{\"model\": ");
    quoted_into(&mut out, model);
    push_str_chars(&mut out, ", \"messages\": [{\"role\": \"user\", \"content\": ");
    quoted_into(&mut out, content);
    push_str_chars(&mut out, "}], \"temperature\": 0.");
    let c: char = match tenths {
        0 => '0',
        1 => '1',
        2 => '2',
        3 => '3',
        4 => '4',
        5 => '5',
        6 => '6',
        7 => '7',
        8 => '8',
        _ => '9',
    };
    out.push(c);
    push_str_chars(&mut out, "}");
    proof {
        assert(out@ =~= chat_body(model@, content@, tenths));
    }
    string_from_chars(&out)
}

/// First index at or after `i` holding `ch`, or the length when none
/// does.
pub open spec fn find_from(c: Seq<char>, ch: char, i: int) -> int
    decreases c.len() - i when 0 <= i <= c.len()
{
    if i >= c.len() {
        c.len() as int
    } else if c[i] == ch {
        i
    } else {
        find_from(c, ch, i + 1)
    }
}

/// Last index at or before `i` holding `ch`, or -1 when none does.
pub open spec fn rfind_down(c: Seq<char>, ch: char, i: int) -> int
    decreases i + 1 when i < c.len()
{
    if i < 0 {
        -1
    } else if c[i] == ch {
        i
    } else {
        rfind_down(c, ch, i - 1)
    }
}

/// Last index at or before `i` where a code fence starts, or -1.
pub open spec fn rfind_fence(c: Seq<char>, i: int) -> int
    decreases i + 1 when i <= c.len()
{
    if i < 0 {
        -1
    } else if i + 3 <= c.len() && c.subrange(i, i + 3) == "```"@ {
        i
    } else {
        rfind_fence(c, i - 1)
    }
}

/// What the lenient extractor yields: the trimmed text; with an optional
/// fenced code block stripped first; then the outermost braced object,
/// located by the first `{` and the last `}`, when both are there.
pub open spec fn spec_extract_json(s: Seq<char>) -> Seq<char> {
    let t = spec_trim(s);
    if prefix_of("```"@, t) && find_from(t, '\n', 0) < t.len() && rfind_fence(t, t.len() - 3)
        > find_from(t, '\n', 0) {
        spec_trim(t.subrange(find_from(t, '\n', 0) + 1, rfind_fence(t, t.len() - 3)))
    } else if find_from(t, '{', 0) < t.len() && rfind_down(t, '}', t.len() - 1) >= find_from(
        t,
        '{',
        0,
    ) {
        t.subrange(find_from(t, '{', 0), rfind_down(t, '}', t.len() - 1) + 1)
    } else {
        t
    }
}

fn find_char_from(v: &Vec<char>, ch: char, i: usize) -> (r: usize)
    requires
        i <= v@.len(),
    ensures
        r == find_from(v@, ch, i as int),
        i <= r <= v@.len(),
{
    let n = v.len();
    let mut j = i;
    while j < n && v[j] != ch
        invariant
            i <= j <= n,
            n == v@.len(),
            find_from(v@, ch, i as int) == find_from(v@, ch, j as int),
        decreases n - j,
    {
        j = j + 1;
    }
    j
}

fn rfind_char_down(v: &Vec<char>, ch: char, i: usize) -> (r: Option<usize>)
    requires
        i < v@.len(),
    ensures
        match r {
            Some(j) => j <= i && j == rfind_down(v@, ch, i as int),
            None => rfind_down(v@, ch, i as int) == -1,
        },
{
    let mut j = i;
    loop
        invariant
            j <= i < v@.len(),
            rfind_down(v@, ch, i as int) == rfind_down(v@, ch, j as int),
        ensures
            j <= i && v@[j as int] == ch && rfind_down(v@, ch, i as int) == j,
        decreases j,
    {
        if v[j] == ch {
            break;
        }
        if j == 0 {
            proof {
                assert(rfind_down(v@, ch, 0) == rfind_down(v@, ch, -1));
                assert(rfind_down(v@, ch, -1int) == -1);
            }
            return None;
        }
        j = j - 1;
    }
    Some(j)
}

fn is_fence_at(v: &Vec<char>, j: usize) -> (r: bool)
    requires
        j + 3 <= v@.len(),
    ensures
        r == (v@.subrange(j as int, j + 3) == "```"@),
{
    proof {
        reveal_strlit("```");
    }
    let _len = v.len();
    let hit = v[j] == '`' && v[j + 1] == '`' && v[j + 2] == '`';
    proof {
        if hit {
            assert(v@.subrange(j as int, j + 3) =~= "```"@);
        } else {
            if v@.subrange(j as int, j + 3) == "```"@ {
                assert(v@.subrange(j as int, j + 3)[0] == v@[j as int]);
                assert(v@.subrange(j as int, j + 3)[1] == v@[j + 1]);
                assert(v@.subrange(j as int, j + 3)[2] == v@[j + 2]);
                assert(false);
            }
        }
    }
    hit
}

fn rfind_fence_down(v: &Vec<char>, i: usize) -> (r: Option<usize>)
    requires
        i <= v@.len(),
    ensures
        match r {
            Some(j) => j <= i && j == rfind_fence(v@, i as int),
            None => rfind_fence(v@, i as int) == -1,
        },
{
    let n = v.len();
    if n < 3 {
        proof {
            lemma_rfind_fence_none_short(v@, i as int);
        }
        return None;
    }
    let mut j = i;
    loop
        invariant
            j <= i <= n,
            n == v@.len(),
            n >= 3,
            rfind_fence(v@, i as int) == rfind_fence(v@, j as int),
        ensures
            j + 3 <= v@.len() && v@.subrange(j as int, j + 3) == "```"@ && rfind_fence(
                v@,
                i as int,
            ) == j,
        decreases j,
    {
        if j <= n - 3 {
            if is_fence_at(v, j) {
                break;
            }
        }
        if j == 0 {
            proof {
                assert(rfind_fence(v@, 0) == rfind_fence(v@, -1));
                assert(rfind_fence(v@, -1int) == -1);
            }
            return None;
        }
        j = j - 1;
    }
    Some(j)
}

proof fn lemma_rfind_fence_none_short(c: Seq<char>, i: int)
    requires
        c.len() < 3,
        i <= c.len(),
    ensures
        rfind_fence(c, i) == -1,
    decreases i + 1,
{
    if i >= 0 {
        lemma_rfind_fence_none_short(c, i - 1);
    }
}

fn sub_vec(v: &Vec<char>, a: usize, b: usize) -> (r: Vec<char>)
    requires
        a <= b <= v@.len(),
    ensures
        r@ == v@.subrange(a as int, b as int),
{
    let mut out: Vec<char> = Vec::new();
    let mut i = a;
    while i < b
        invariant
            a <= i <= b <= v@.len(),
            out@ =~= v@.subrange(a as int, i as int),
        decreases b - i,
    {
        out.push(v[i]);
        i = i + 1;
    }
    proof {
        assert(out@ =~= v@.subrange(a as int, b as int));
    }
    out
}

/// Extract the JSON object from a model reply, tolerating markdown code
/// fences and surrounding prose.
pub fn extract_json(text: &str) -> (r: String)
    ensures
        r@ == spec_extract_json(text@),
{
    proof {
        reveal_strlit("```");
    }
    let v0 = chars_of(text);
    let t = trim_chars(&v0);
    let n = t.len();
    let fenced = if n >= 3 && t[0] == '`' && t[1] == '`' && t[2] == '`' {
        proof {
            assert(t@.take(3) =~= "```"@);
        }
        let nl = find_char_from(&t, '\n', 0);
        if nl < n {
            match rfind_fence_down(&t, n - 3) {
                Some(fe) => {
                    if fe > nl {
                        Some(trim_chars(&sub_vec(&t, nl + 1, fe)))
                    } else {
                        None
                    }
                },
                None => None,
            }
        } else {
            None
        }
    } else {
        proof {
            if prefix_of("```"@, t@) {
                assert(t@.take(3) =~= "```"@);
                assert(t@.take(3)[0] == '`' && t@.take(3)[1] == '`' && t@.take(3)[2] == '`');
                assert(t@[0] == '`' && t@[1] == '`' && t@[2] == '`');
            }
        }
        None
    };
    let out: Vec<char> = match fenced {
        Some(x) => x,
        None => {
            if n == 0 {
                t
            } else {
                let ob = find_char_from(&t, '{', 0);
                if ob < n {
                    match rfind_char_down(&t, '}', n - 1) {
                        Some(cb) => {
                            if cb >= ob {
                                sub_vec(&t, ob, cb + 1)
                            } else {
                                proof {
                                    assert(t@.subrange(0, n as int) =~= t@);
                                }
                                sub_vec(&t, 0, n)
                            }
                        },
                        None => {
                            proof {
                                assert(t@.subrange(0, n as int) =~= t@);
                            }
                            sub_vec(&t, 0, n)
                        },
                    }
                } else {
                    proof {
                        assert(t@.subrange(0, n as int) =~= t@);
                    }
                    sub_vec(&t, 0, n)
                }
            }
        },
    };
    string_from_chars(&out)
}

/// The lenient extractor is the identity on any text whose trimmed form
/// is already one valid corrected-reply object.
pub proof fn lemma_extract_identity_on_reply(s: Seq<char>)
    requires
        take_corrected(spec_trim(s)) is Some,
        (take_corrected(spec_trim(s))->0).1.len() == 0,
    ensures
        spec_extract_json(s) == spec_trim(s),
{
    let t = spec_trim(s);
    crate::codec::lemma_corrected_shape(t);
    reveal_strlit("```");
    if prefix_of("```"@, t) {
        assert(t.take(3)[0] == t[0]);
        assert(t.take(3)[0] == '`');
        assert(false);
    }
    assert(find_from(t, '{', 0) == 0);
    assert(rfind_down(t, '}', t.len() - 1) == t.len() - 1);
    assert(t.subrange(0, t.len() as int) =~= t);
}

/// What a corrector reply carries once its content is in hand: the
/// extractor's output read as the reply object, or nothing when that
/// fails anywhere.
pub open spec fn spec_correction_of(content: Seq<char>) -> Option<Seq<char>> {
    match take_corrected(spec_extract_json(content)) {
        Some((s, rest)) => if rest.len() == 0 {
            Some(s)
        } else {
            None
        },
        None => None,
    }
}

/// The text the corrector's reply carries, when its content can be read:
/// the extractor's output parsed as the reply object.
pub fn corrected_of_content(content: &str) -> (r: Option<String>)
    ensures
        ({
            match spec_correction_of(content@) {
                Some(s) => r matches Some(t) && t@ == s,
                None => r is None,
            }
        }),
{
    let body = extract_json(content);
    crate::codec::parse_corrected(body.as_str())
}

/// The assistant content of a chat-completion reply body — the string at
/// `choices[0].message.content` — if the body is JSON and carries one.
/// It is a function of the reply text alone; stating which texts carry
/// one would be a page of grammar, so the result bears this name and the
/// trusted reader below is held to it.
pub uninterp spec fn chat_content_of(body: Seq<char>) -> Option<Seq<char>>;

/// Relies on `serde_json::from_str` and `serde_json::Value::get`/
/// `as_str`: reads the string at `choices[0].message.content` of a
/// chat-completion reply body, or nothing when the body does not parse
/// or does not carry one. The intermediate values are opaque JSON trees,
/// so the navigation stands in this one reader.
#[verifier::external_body]
fn chat_content(body: &str) -> (r: Option<String>)
    ensures
        match r {
            Some(s) => chat_content_of(body@) == Some(s@),
            None => chat_content_of(body@) is None,
        },
{
    let v: serde_json::Value = serde_json::from_str(body).ok()?;
    let s = v.get("choices")?.get(0)?.get("message")?.get("content")?.as_str()?;
    Some(s.to_string())
}

/// The assistant content of a chat-completion reply body: the string at
/// `choices[0].message.content`, when the body parses and has it.
pub fn parse_chat_content(body: &str) -> (r: Option<String>)
    ensures
        ({
            match chat_content_of(body@) {
                Some(c) => r matches Some(s) && s@ == c,
                None => r is None,
            }
        }),
{
    chat_content(body)
}

/// The corrected text carried by a whole HTTP reply body, if any: the
/// assistant content, extracted and read as the reply object. `None` on
/// any failure — the caller then keeps the raw transcript.
pub fn correction_from_response(body: &str) -> (r: Option<String>)
    ensures
        ({
            match chat_content_of(body@) {
                None => r is None,
                Some(c) => match spec_correction_of(c) {
                    Some(s) => r matches Some(t) && t@ == s,
                    None => r is None,
                },
            }
        }),
{
    match parse_chat_content(body) {
        Some(content) => corrected_of_content(content.as_str()),
        None => None,
    }
}

/// The report of a successful connection test: a fixed greeting and the
/// first hundred characters of the model's reply.
pub fn connection_test_report(content: &str) -> (r: String)
    ensures
        r@ == "Connection successful! Model response: "@ + content@.take(
            if content@.len() <= 100 {
                content@.len() as int
            } else {
                100
            },
        ),
{
    let mut out: Vec<char> = Vec::new();
    push_str_chars(&mut out, "Connection successful! Model response: ");
    let n = content.unicode_len();
    let limit = if n <= 100 {
        n
    } else {
        100
    };
    let mut i: usize = 0;
    while i < limit
        invariant
            i <= limit <= n,
            n == content@.len(),
            out@ =~= "Connection successful! Model response: "@ + content@.take(i as int),
        decreases limit - i,
    {
        out.push(content.get_char(i));
        i = i + 1;
    }
    string_from_chars(&out)
}

} // verus!
