//! Streaming chat completions over server-sent events: the request, and the
//! reading of the event stream line by line.

use vstd::prelude::*;
use crate::config::Config;
use crate::json::{JsonValue, JsonNumber, NumberView, Json, values_view, text, array, object3};
use crate::model::endpoint::{EndpointSettings, EndpointView, stream_chat_url, token_of};
use crate::model::openai_chat::{first_choice_text, first_choice_text_spec, clone_values};
use crate::agent::runner::{role_message, role_message_json};
use crate::utils::text::{trim, trim_spec, strip_trailing, push_string};

verus! {

/// A streaming chat request: where it goes, what it sends.
pub struct OpenAiChatRealtime {
    pub endpoint: EndpointSettings,
    pub messages: Vec<JsonValue>,
    pub max_tokens: Option<i32>,
    pub temperature: Option<JsonNumber>,
}

pub struct RealtimeView {
    pub endpoint: EndpointView,
    pub messages: Seq<Json>,
    pub max_tokens: Option<i32>,
    pub temperature: Option<NumberView>,
}

impl View for OpenAiChatRealtime {
    type V = RealtimeView;

    open spec fn view(&self) -> RealtimeView {
        RealtimeView {
            endpoint: self.endpoint@,
            messages: values_view(self.messages@),
            max_tokens: self.max_tokens,
            temperature: match self.temperature {
                Some(n) => Some(n@),
                None => None,
            },
        }
    }
}

/// The request body: model, messages and `stream: true`, then the limits that are set.
pub open spec fn stream_body_spec(r: RealtimeView) -> Json {
    let base = Json::Object(
        seq![
            ("model"@, Json::Text(r.endpoint.model)),
            ("messages"@, Json::Array(r.messages)),
            ("stream"@, Json::Bool(true)),
        ],
    );
    let with_max = match r.max_tokens {
        Some(mt) => base.with_field("max_tokens"@, Json::Number(NumberView::Int(mt as int))),
        None => base,
    };
    match r.temperature {
        Some(t) => with_max.with_field("temperature"@, Json::Number(t)),
        None => with_max,
    }
}

impl OpenAiChatRealtime {
    /// A stream of the given messages, with `max_tokens` 512 and temperature 0.2.
    pub fn new_with_messages(config: &Config, messages: Vec<JsonValue>) -> (r: Self)
        ensures
            r@ == (RealtimeView {
                endpoint: EndpointView {
                    model: config.model@,
                    base_url: config.base_url@,
                    auth_token: token_of(config.api_key@),
                },
                messages: values_view(messages@),
                max_tokens: Some(512),
                temperature: Some(NumberView::Decimal("0.2"@)),
            }),
    {
        OpenAiChatRealtime {
            endpoint: EndpointSettings::from_config(config),
            messages,
            max_tokens: Some(512),
            temperature: Some(JsonNumber::Decimal(String::from_str("0.2"))),
        }
    }

    /// A stream of the single user message `prompt`.
    pub fn new_simple(config: &Config, prompt: &str) -> (r: Self)
        ensures
            r@.messages == seq![role_message("user"@, prompt@)],
            r@.endpoint.model == config.model@,
            r@.endpoint.base_url == config.base_url@,
            r@.endpoint.auth_token == token_of(config.api_key@),
            r@.max_tokens == Some(512i32),
            r@.temperature == Some(NumberView::Decimal("0.2"@)),
    {
        let mut messages: Vec<JsonValue> = Vec::new();
        crate::json::push_value(&mut messages, role_message_json("user", String::from_str(prompt)));
        proof {
            assert(values_view(messages@) =~= seq![role_message("user"@, prompt@)]);
        }
        Self::new_with_messages(config, messages)
    }

    /// The streaming endpoint.
    pub fn url(&self) -> (r: String)
        ensures
            r@ == strip_trailing(self@.endpoint.base_url, '/') + "/chat/completions"@,
    {
        stream_chat_url(self.endpoint.base_url.as_str())
    }

    /// The request body.
    pub fn body(&self) -> (r: JsonValue)
        ensures
            r@ == stream_body_spec(self@),
    {
        let mut body = object3(
            "model",
            text(self.endpoint.model.as_str()),
            "messages",
            array(clone_values(&self.messages)),
            "stream",
            JsonValue::Bool(true),
        );
        if let Some(mt) = self.max_tokens {
            body = body.with_field("max_tokens", JsonValue::Number(JsonNumber::Int(mt as i64)));
        }
        if let Some(t) = &self.temperature {
            body = body.with_field("temperature", JsonValue::Number(t.deep_clone()));
        }
        body
    }
}

/// Index of the first newline byte of `buf` from `k` on.
pub open spec fn newline_from(buf: Seq<u8>, k: int) -> Option<int>
    decreases buf.len() - k,
{
    if k < 0 || k >= buf.len() {
        None
    } else if buf[k] == 10u8 {
        Some(k)
    } else {
        newline_from(buf, k + 1)
    }
}

proof fn lemma_newline_from(buf: Seq<u8>, k: int)
    ensures
        newline_from(buf, k) matches Some(p) ==> k <= p < buf.len() && buf[p] == 10u8,
    decreases buf.len() - k,
{
    if !(k < 0 || k >= buf.len()) && buf[k] != 10u8 {
        lemma_newline_from(buf, k + 1);
    }
}

/// Takes the first complete line (through its newline) off the front of `buf`.
pub fn take_line(buf: &mut Vec<u8>) -> (r: Option<Vec<u8>>)
    ensures
        match newline_from(old(buf)@, 0) {
            Some(p) => r matches Some(line) && line@ == old(buf)@.take(p + 1) && final(buf)@ == old(
                buf,
            )@.skip(p + 1),
            None => r is None && final(buf)@ == old(buf)@,
        },
{
    let mut k: usize = 0;
    while k < buf.len()
        invariant
            k <= buf@.len(),
            buf@ == old(buf)@,
            newline_from(buf@, 0) == newline_from(buf@, k as int),
        decreases buf@.len() - k,
    {
        if buf[k] == 10u8 {
            proof {
                lemma_newline_from(buf@, 0);
            }
            let mut rest = buf.split_off(k + 1);
            core::mem::swap(buf, &mut rest);
            assert(rest@ =~= old(buf)@.take(k + 1));
            assert(buf@ =~= old(buf)@.skip(k + 1));
            return Some(rest);
        }
        k = k + 1;
    }
    None
}

/// What the lossy UTF-8 decoding of `bytes` gives (`String::from_utf8_lossy`).
pub uninterp spec fn utf8_lossy(bytes: Seq<u8>) -> Seq<char>;

/// Calls `String::from_utf8_lossy`. Claims: the result is `utf8_lossy` of the
/// bytes, and for valid UTF-8 it is the decoded text.
#[verifier::external_body]
fn decode_lossy(bytes: &[u8]) -> (r: String)
    ensures
        r@ == utf8_lossy(bytes@),
        vstd::utf8::valid_utf8(bytes@) ==> r@ == vstd::utf8::decode_utf8(bytes@),
{
    String::from_utf8_lossy(bytes).to_string()
}

/// One line of an event stream, classified.
pub enum SseLine {
    /// Blank, or not a data line.
    Skip,
    /// The `[DONE]` marker.
    Done,
    /// The (trimmed) payload of a data line.
    Data(String),
}

pub enum SseLineView {
    Skip,
    Done,
    Data(Seq<char>),
}

impl View for SseLine {
    type V = SseLineView;

    open spec fn view(&self) -> SseLineView {
        match self {
            SseLine::Skip => SseLineView::Skip,
            SseLine::Done => SseLineView::Done,
            SseLine::Data(s) => SseLineView::Data(s@),
        }
    }
}

/// The meaning of a decoded line: after trimming, a line starting with
/// `data: ` carries its (trimmed) remainder, unless that remainder is the
/// `[DONE]` marker.
pub open spec fn sse_line_spec(line: Seq<char>) -> SseLineView {
    let t = trim_spec(line);
    if t.len() >= 6 && t.take(6) == "data: "@ {
        let d = trim_spec(t.skip(6));
        if d == "[DONE]"@ {
            SseLineView::Done
        } else {
            SseLineView::Data(d)
        }
    } else {
        SseLineView::Skip
    }
}

/// Classifies one raw line of an event stream: the bytes are decoded (invalid
/// UTF-8 replaced) and the text is classified by `classify_sse_text`.
pub fn classify_sse_line(raw: &[u8]) -> (r: SseLine)
    ensures
        r@ == sse_line_spec(utf8_lossy(raw@)),
        vstd::utf8::valid_utf8(raw@) ==> r@ == sse_line_spec(vstd::utf8::decode_utf8(raw@)),
{
    let decoded = decode_lossy(raw);
    classify_sse_text(decoded.as_str())
}

/// Classifies one decoded line of an event stream.
pub fn classify_sse_text(line: &str) -> (r: SseLine)
    ensures
        r@ == sse_line_spec(line@),
{
    let t = trim(line);
    let ts = t.as_str();
    let n = ts.unicode_len();
    if n >= 6 && crate::json::str_equal(ts.substring_char(0, 6), "data: ") {
        let d = trim(ts.substring_char(6, n));
        assert(ts@.skip(6) =~= ts@.subrange(6, n as int));
        if crate::json::str_equal(d.as_str(), "[DONE]") {
            SseLine::Done
        } else {
            SseLine::Data(d)
        }
    } else {
        proof {
            if n >= 6 {
                assert(ts@.take(6) =~= ts@.subrange(0, 6));
            }
        }
        SseLine::Skip
    }
}

/// What reading the complete lines of `bs` gives: the data payloads in order,
/// the bytes left pending, and whether a `[DONE]` line stopped the reading.
/// Reading stops at the first `[DONE]` line; what follows it stays pending and
/// is read with the next chunk, so a `[DONE]` line ends one chunk's reading,
/// not the stream.
/// Bytes after the last newline stay pending too.
pub open spec fn sse_scan(bs: Seq<u8>) -> (Seq<Seq<char>>, Seq<u8>, bool)
    decreases bs.len(),
{
    match newline_from(bs, 0) {
        Some(p) => if 0 <= p < bs.len() {
            let rest = bs.skip(p + 1);
            match sse_line_spec(utf8_lossy(bs.take(p + 1))) {
                SseLineView::Skip => sse_scan(rest),
                SseLineView::Done => (Seq::empty(), rest, true),
                SseLineView::Data(d) => {
                    let s = sse_scan(rest);
                    (seq![d] + s.0, s.1, s.2)
                },
            }
        } else {
            (Seq::empty(), bs, false)
        },
        None => (Seq::empty(), bs, false),
    }
}

/// The bytes of a sequence of chunks, in order.
pub open spec fn concat_chunks(cs: Seq<Seq<u8>>) -> Seq<u8>
    decreases cs.len(),
{
    if cs.len() == 0 {
        Seq::empty()
    } else {
        cs[0] + concat_chunks(cs.drop_first())
    }
}

/// Feeding the chunks one by one to a reader whose pending bytes are `q`:
/// the payloads read, in order, and the bytes left pending.
pub open spec fn feed_chunks(q: Seq<u8>, cs: Seq<Seq<u8>>) -> (Seq<Seq<char>>, Seq<u8>)
    decreases cs.len(),
{
    if cs.len() == 0 {
        (Seq::empty(), q)
    } else {
        let s = sse_scan(q + cs[0]);
        let r = feed_chunks(s.1, cs.drop_first());
        (s.0 + r.0, r.1)
    }
}

/// Reads an event stream chunk by chunk, keeping an incomplete last line.
pub struct SseReader {
    pending: Vec<u8>,
}

impl View for SseReader {
    type V = Seq<u8>;

    closed spec fn view(&self) -> Seq<u8> {
        self.pending@
    }
}

impl SseReader {
    /// A reader with nothing pending.
    pub fn new() -> (r: Self)
        ensures
            r@ == Seq::<u8>::empty(),
    {
        SseReader { pending: Vec::new() }
    }

    /// Adds `chunk` to the pending bytes and reads the complete lines: returns
    /// their data payloads in order, up to a `[DONE]` line. The bytes after
    /// that line stay pending and are read by the next call, which goes on
    /// reading the stream.
    pub fn feed(&mut self, chunk: &[u8]) -> (r: Vec<String>)
        ensures
            r.deep_view() == sse_scan(old(self)@ + chunk@).0,
            final(self)@ == sse_scan(old(self)@ + chunk@).1,
    {
        let ghost all = old(self)@ + chunk@;
        let mut i: usize = 0;
        while i < chunk.len()
            invariant
                i <= chunk@.len(),
                self.pending@ == old(self)@ + chunk@.take(i as int),
            decreases chunk@.len() - i,
        {
            self.pending.push(chunk[i]);
            proof {
                assert(chunk@.take(i + 1) =~= chunk@.take(i as int).push(chunk@[i as int]));
            }
            i = i + 1;
        }
        assert(chunk@.take(chunk@.len() as int) =~= chunk@);
        let mut out: Vec<String> = Vec::new();
        loop
            invariant_except_break
                sse_scan(all).0 == out.deep_view() + sse_scan(self.pending@).0,
                sse_scan(all).1 == sse_scan(self.pending@).1,
            ensures
                out.deep_view() == sse_scan(all).0,
                self.pending@ == sse_scan(all).1,
            decreases self.pending@.len(),
        {
            let ghost before = self.pending@;
            proof {
                lemma_newline_from(before, 0);
            }
            match take_line(&mut self.pending) {
                None => {
                    assert(out.deep_view() + Seq::<Seq<char>>::empty() =~= out.deep_view());
                    break;
                },
                Some(line) => {
                    match classify_sse_line(line.as_slice()) {
                        SseLine::Skip => {},
                        SseLine::Done => {
                            assert(out.deep_view() + Seq::<Seq<char>>::empty() =~= out.deep_view());
                            break;
                        },
                        SseLine::Data(d) => {
                            let ghost od = out.deep_view();
                            let ghost dv = d@;
                            push_string(&mut out, d);
                            assert(od + (seq![dv] + sse_scan(self.pending@).0) =~= out.deep_view() + sse_scan(self.pending@).0);
                        },
                    }
                },
            }
        }
        out
    }
}

/// Reading `x + y` is reading `x`, then (unless `x` held `[DONE]`) reading what
/// `x` left pending followed by `y`.
pub proof fn lemma_sse_scan_append(x: Seq<u8>, y: Seq<u8>)
    ensures
        sse_scan(x + y) == (if sse_scan(x).2 {
            (sse_scan(x).0, sse_scan(x).1 + y, true)
        } else {
            let s2 = sse_scan(sse_scan(x).1 + y);
            (sse_scan(x).0 + s2.0, s2.1, s2.2)
        }),
    decreases x.len(),
{
    lemma_newline_from(x, 0);
    match newline_from(x, 0) {
        None => {
            assert(Seq::<Seq<char>>::empty() + sse_scan(x + y).0 =~= sse_scan(x + y).0);
        },
        Some(p) => {
            let xy = x + y;
            lemma_newline_prefix(x, y, 0);
            assert(xy.take(p + 1) =~= x.take(p + 1));
            assert(xy.skip(p + 1) =~= x.skip(p + 1) + y);
            let rest = x.skip(p + 1);
            lemma_sse_scan_append(rest, y);
            match sse_line_spec(utf8_lossy(x.take(p + 1))) {
                SseLineView::Skip => {},
                SseLineView::Done => {},
                SseLineView::Data(d) => {
                    let sr = sse_scan(rest);
                    if !sr.2 {
                        let s2 = sse_scan(sr.1 + y);
                        assert(seq![d] + (sr.0 + s2.0) =~= (seq![d] + sr.0) + s2.0);
                    }
                },
            }
        },
    }
}

proof fn lemma_newline_prefix(x: Seq<u8>, y: Seq<u8>, k: int)
    requires
        0 <= k,
        newline_from(x, k) is Some,
    ensures
        newline_from(x + y, k) == newline_from(x, k),
    decreases x.len() - k,
{
    if k < x.len() && x[k] != 10u8 {
        lemma_newline_prefix(x, y, k + 1);
    }
}

/// A reading that did not stop at `[DONE]` leaves no complete line pending.
proof fn lemma_scan_pending_has_no_line(bs: Seq<u8>)
    requires
        !sse_scan(bs).2,
    ensures
        newline_from(sse_scan(bs).1, 0) is None,
    decreases bs.len(),
{
    lemma_newline_from(bs, 0);
    if let Some(p) = newline_from(bs, 0) {
        lemma_scan_pending_has_no_line(bs.skip(p + 1));
    }
}

/// The event stream reads the same however it is cut into chunks: as long as no
/// `[DONE]` line occurs, feeding the chunks one by one to a reader with no
/// complete line pending gives the payloads of the whole stream, in order, and
/// leaves the same bytes pending.
pub proof fn law_chunking_does_not_matter(q: Seq<u8>, cs: Seq<Seq<u8>>)
    requires
        newline_from(q, 0) is None,
        !sse_scan(q + concat_chunks(cs)).2,
    ensures
        feed_chunks(q, cs) == (sse_scan(q + concat_chunks(cs)).0, sse_scan(q + concat_chunks(cs)).1),
    decreases cs.len(),
{
    if cs.len() == 0 {
        assert(q + concat_chunks(cs) =~= q);
    } else {
        let rest = concat_chunks(cs.drop_first());
        let x = q + cs[0];
        assert(q + concat_chunks(cs) =~= x + rest);
        lemma_sse_scan_append(x, rest);
        let s = sse_scan(x);
        lemma_scan_pending_has_no_line(x);
        law_chunking_does_not_matter(s.1, cs.drop_first());
    }
}

/// The text delta of a stream event: `choices[0].delta.content` or
/// `choices[0].text`, when it is a non-empty string.
pub open spec fn delta_text_spec(event: Json) -> Option<Seq<char>> {
    match first_choice_text_spec(event, "delta"@) {
        Some(t) => if t.len() > 0 {
            Some(t)
        } else {
            None
        },
        None => None,
    }
}

/// The text delta of a stream event.
pub fn delta_text(event: &JsonValue) -> (r: Option<String>)
    ensures
        r.deep_view() == delta_text_spec(event@),
{
    match first_choice_text(event, "delta") {
        Some(t) => if t.as_str().unicode_len() > 0 {
            Some(t)
        } else {
            None
        },
        None => None,
    }
}

} // verus!
