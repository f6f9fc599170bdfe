//! Answering other nodes.

use vstd::prelude::*;

use crate::deps::{decode_lossy, lossy_text};
use crate::network::peer_rpc::client::{body_start, message_body, BlockFetch, FetchAction};
use crate::network::peer_rpc::types::ValidatorInfoSimple;
use crate::node::consensus_node::ValidatorInfo;
use crate::text::{
    chars_of, copy_str, decimal, find, first_occurrence, has_prefix, law_decimal_round_trip,
    law_prefix, law_search_finds_the_first_place, lemma_first_char, lemma_split_first,
    lemma_split_nonempty, lemma_split_one, occurs_at, parse_number, parsed_number, same_text, split, split_on, starts_with, texts, trim, trimmed,
};

verus! {

/// How many blocks are answered with at most.
pub const MAX_BLOCKS_PER_ANSWER: u64 = 5;

// ---------------------------------------------------------------------------------------------
// Reading a request
// ---------------------------------------------------------------------------------------------

/// The blank line that ends the headers.
pub open spec fn header_end_mark() -> Seq<u8> {
    seq![13u8, 10u8, 13u8, 10u8]
}

/// The headers end at `i`.
pub open spec fn headers_end_at(bytes: Seq<u8>, i: int) -> bool {
    0 <= i && i + 4 <= bytes.len() && bytes.subrange(i, i + 4) == header_end_mark()
}

/// The first position at which the headers end.
pub open spec fn is_headers_end(bytes: Seq<u8>, end: Option<int>) -> bool {
    match end {
        Some(i) => headers_end_at(bytes, i) && forall|j: int|
            0 <= j < i ==> !#[trigger] headers_end_at(bytes, j),
        None => forall|j: int| !#[trigger] headers_end_at(bytes, j),
    }
}

/// Finds the end of the headers.
pub fn find_headers_end(bytes: &[u8]) -> (r: Option<usize>)
    ensures
        is_headers_end(
            bytes@,
            match r {
                Some(i) => Some(i as int),
                None => None,
            },
        ),
{
    let mut i: usize = 0;
    if bytes.len() < 4 {
        return None;
    }
    let last: usize = bytes.len() - 4;
    while i <= last
        invariant
            i <= last,
            last == bytes@.len() - 4,
            forall|j: int| 0 <= j < i ==> !#[trigger] headers_end_at(bytes@, j),
        decreases last - i,
    {
        if bytes[i] == 13 && bytes[i + 1] == 10 && bytes[i + 2] == 13 && bytes[i + 3] == 10 {
            assert(bytes@.subrange(i as int, i + 4) =~= header_end_mark());
            return Some(i);
        }
        assert(!headers_end_at(bytes@, i as int)) by {
            if headers_end_at(bytes@, i as int) {
                let w = bytes@.subrange(i as int, i + 4);
                assert(w[0] == bytes@[i as int]);
                assert(w[1] == bytes@[i + 1]);
                assert(w[2] == bytes@[i + 2]);
                assert(w[3] == bytes@[i + 3]);
                assert(w == header_end_mark());
                assert(header_end_mark()[0] == 13u8 && header_end_mark()[1] == 10u8
                    && header_end_mark()[2] == 13u8 && header_end_mark()[3] == 10u8);
            }
        }
        if i == last {
            return None;
        }
        i = i + 1;
    }
    None
}

/// `c` in lower case, for ASCII letters.
pub open spec fn ascii_lower(c: char) -> char {
    if 'A' <= c && c <= 'Z' {
        (c as int + 32) as char
    } else {
        c
    }
}

/// `line` begins with `prefix`, which is in lower case, whatever the case of its letters.
pub open spec fn starts_with_ignoring_case(line: Seq<char>, prefix: Seq<char>) -> bool {
    prefix.len() <= line.len() && forall|i: int|
        0 <= i < prefix.len() ==> ascii_lower(#[trigger] line[i]) == prefix[i]
}

fn has_prefix_ignoring_case(line: &[char], prefix: &[char]) -> (r: bool)
    ensures
        r == starts_with_ignoring_case(line@, prefix@),
{
    if prefix.len() > line.len() {
        return false;
    }
    let mut i: usize = 0;
    while i < prefix.len()
        invariant
            i <= prefix@.len() <= line@.len(),
            forall|k: int| 0 <= k < i ==> ascii_lower(#[trigger] line@[k]) == prefix@[k],
        decreases prefix@.len() - i,
    {
        let c = line[i];
        let lower = if 'A' <= c && c <= 'Z' {
            (c as u8 + 32) as char
        } else {
            c
        };
        assert(lower == ascii_lower(c));
        if lower != prefix[i] {
            assert(ascii_lower(line@[i as int]) != prefix@[i as int]);
            return false;
        }
        i = i + 1;
    }
    true
}

/// The length that a header line announces, if it is a valid content length.
pub open spec fn announced_length(line: Seq<char>) -> Option<nat> {
    if starts_with_ignoring_case(line, "content-length:"@) && split_on(line, ':').len() > 1 {
        parsed_number(trimmed(split_on(line, ':')[1]), usize::MAX as nat)
    } else {
        None
    }
}

/// The first length that one of `lines` announces, or 0.
pub open spec fn first_length(lines: Seq<Seq<char>>) -> nat
    decreases lines.len(),
{
    if lines.len() == 0 {
        0
    } else {
        match announced_length(lines[0]) {
            Some(n) => n,
            None => first_length(lines.skip(1)),
        }
    }
}

/// The length of the body that headers announce; 0 if they announce none.
pub open spec fn content_length_of(headers: Seq<char>) -> nat {
    first_length(split_on(headers, '\n'))
}

/// The length of the body that headers announce.
pub fn content_length(headers: &str) -> (n: usize)
    ensures
        n == content_length_of(headers@),
{
    let chars = chars_of(headers);
    let lines = split(chars.as_slice(), '\n');
    let name = chars_of("content-length:");
    let ghost all = texts(lines@);
    let mut i: usize = 0;
    assert(all.skip(0) =~= all);
    while i < lines.len()
        invariant
            i <= lines@.len(),
            all == texts(lines@),
            name@ == "content-length:"@,
            first_length(all) == first_length(all.skip(i as int)),
            first_length(all) == content_length_of(headers@),
        decreases lines@.len() - i,
    {
        let line = &lines[i];
        proof {
            assert(all.skip(i as int)[0] == line@);
            assert(all.skip(i as int).skip(1) =~= all.skip(i + 1));
        }
        if has_prefix_ignoring_case(line.as_slice(), name.as_slice()) {
            let parts = split(line.as_slice(), ':');
            assert(texts(parts@).len() == parts@.len());
            if parts.len() > 1 {
                assert(texts(parts@)[1] == parts@[1]@);
                let value = trim(parts[1].as_slice());
                if let Some(n) = parse_number(value, usize::MAX as u64) {
                    return n as usize;
                }
            }
        }
        i = i + 1;
    }
    0
}

/// A request that is being read.
#[derive(Debug)]
pub struct RequestReader {
    pub bytes: Vec<u8>,
    /// The length of the whole request, once its headers are complete.
    pub expected_len: Option<usize>,
}

/// The length of a whole request whose headers end at `end`.
pub open spec fn request_len(bytes: Seq<u8>, end: int) -> int {
    let len = end + 4 + content_length_of(lossy_text(bytes.take(end)));
    if len <= usize::MAX {
        len
    } else {
        usize::MAX as int
    }
}

impl RequestReader {
    /// Nothing has been read yet.
    pub fn new() -> (r: RequestReader)
        ensures
            r.bytes@.len() == 0,
            r.expected_len is None,
    {
        RequestReader { bytes: Vec::new(), expected_len: None }
    }

    /// Takes in what was read. Returns whether the request is complete: its headers are, and as many
    /// bytes follow them as they announce.
    pub fn on_data(&mut self, chunk: &[u8]) -> (complete: bool)
        ensures
            final(self).bytes@ == old(self).bytes@ + chunk@,
            match old(self).expected_len {
                Some(n) => final(self).expected_len == Some(n),
                None => exists|end: Option<int>| #[trigger]
                    is_headers_end(final(self).bytes@, end) && match end {
                        Some(i) => final(self).expected_len matches Some(n) && n == request_len(
                            final(self).bytes@,
                            i,
                        ),
                        None => final(self).expected_len is None,
                    },
            },
            complete == (final(self).expected_len matches Some(n) && final(self).bytes@.len()
                >= n),
    {
        self.bytes.extend_from_slice(chunk);
        assert(self.bytes@ =~= old(self).bytes@ + chunk@);
        if self.expected_len.is_none() {
            let end = find_headers_end(self.bytes.as_slice());
            if let Some(i) = end {
                let head = vstd::slice::slice_subrange(self.bytes.as_slice(), 0, i);
                assert(head@ =~= self.bytes@.take(i as int));
                let text = decode_lossy(head);
                let body: usize = content_length(text.as_str());
                let total: usize = self.bytes.len();
                assert(i + 4 <= total);
                let headers: usize = i + 4;
                self.expected_len = Some(headers.saturating_add(body));
                assert(is_headers_end(self.bytes@, Some(i as int)));
            } else {
                assert(is_headers_end(self.bytes@, None));
            }
        }
        match self.expected_len {
            Some(n) => self.bytes.len() >= n,
            None => false,
        }
    }
}

// ---------------------------------------------------------------------------------------------
// Query parameters
// ---------------------------------------------------------------------------------------------

/// The query of a request: what stands between the first question mark and the first blank behind
/// it.
pub open spec fn query_of(request: Seq<char>) -> Option<Seq<char>> {
    match first_occurrence(request, seq!['?']) {
        Some(q) => {
            let rest = request.skip(q);
            match first_occurrence(rest, seq![' ']) {
                Some(e) => Some(rest.subrange(1, e)),
                None => Some(rest.skip(1)),
            }
        },
        None => None,
    }
}

/// The value of a parameter called `key`: what stands behind its one equals sign.
pub open spec fn value_of(param: Seq<char>, key: Seq<char>) -> Option<Seq<char>> {
    let parts = split_on(param, '=');
    if parts.len() == 2 && parts[0] == key {
        Some(parts[1])
    } else {
        None
    }
}

/// The number that the first parameter called `key` denotes.
pub open spec fn first_number(params: Seq<Seq<char>>, key: Seq<char>) -> Option<nat>
    decreases params.len(),
{
    if params.len() == 0 {
        None
    } else {
        match value_of(params[0], key) {
            Some(v) => parsed_number(v, u64::MAX as nat),
            None => first_number(params.skip(1), key),
        }
    }
}

/// The number that the last parameter called `key` denotes.
pub open spec fn last_number(params: Seq<Seq<char>>, key: Seq<char>) -> Option<nat>
    decreases params.len(),
{
    if params.len() == 0 {
        None
    } else {
        match value_of(params.last(), key) {
            Some(v) => parsed_number(v, u64::MAX as nat),
            None => last_number(params.drop_last(), key),
        }
    }
}

/// The epoch that a request asks for.
pub open spec fn epoch_param(request: Seq<char>) -> Option<nat> {
    match query_of(request) {
        Some(q) => first_number(split_on(q, '&'), "epoch"@),
        None => None,
    }
}

/// One end of the block range that a request asks for.
pub open spec fn block_param(request: Seq<char>, key: Seq<char>) -> Option<nat> {
    match query_of(request) {
        Some(q) => last_number(split_on(q, '&'), key),
        None => None,
    }
}

/// A number as specification sees it.
pub open spec fn as_nat(n: Option<u64>) -> Option<nat> {
    match n {
        Some(v) => Some(v as nat),
        None => None,
    }
}

fn query(request: &[char]) -> (r: Option<Vec<char>>)
    ensures
        match r {
            Some(q) => query_of(request@) == Some(q@),
            None => query_of(request@) is None,
        },
{
    let mut mark: Vec<char> = Vec::new();
    mark.push('?');
    let mut blank: Vec<char> = Vec::new();
    blank.push(' ');
    assert(mark@ =~= seq!['?']);
    assert(blank@ =~= seq![' ']);
    match find(request, mark.as_slice()) {
        Some(q) => {
            let rest = vstd::slice::slice_subrange(request, q, request.len());
            assert(rest@ =~= request@.skip(q as int));
            assert(occurs_at(request@, mark@, q as int));
            assert(request@.subrange(q as int, q + 1)[0] == '?');
            let end: usize = match find(rest, blank.as_slice()) {
                Some(e) => {
                    assert(occurs_at(rest@, blank@, e as int));
                    assert(rest@.subrange(e as int, e + 1)[0] == ' ');
                    assert(rest@[0] == '?');
                    assert(e != 0);
                    e
                },
                None => rest.len(),
            };
            let inner = vstd::slice::slice_subrange(rest, 1, end);
            let mut out: Vec<char> = Vec::new();
            out.extend_from_slice(inner);
            proof {
                assert(out@ =~= inner@);
                assert(rest@.subrange(1, rest@.len() as int) =~= rest@.skip(1));
            }
            Some(out)
        },
        None => None,
    }
}

fn param_value(param: &[char], key: &str) -> (r: Option<Vec<char>>)
    ensures
        match r {
            Some(v) => value_of(param@, key@) == Some(v@),
            None => value_of(param@, key@) is None,
        },
{
    let mut parts = split(param, '=');
    let ghost pieces = texts(parts@);
    assert(pieces.len() == parts@.len());
    if parts.len() != 2 {
        return None;
    }
    let wanted = chars_of(key);
    assert(pieces[0] == parts@[0]@);
    assert(pieces[1] == parts@[1]@);
    if !same_text(parts[0].as_slice(), wanted.as_slice()) {
        return None;
    }
    parts.pop()
}

/// The epoch that a request asks for.
pub fn parse_epoch_param(request: &str) -> (r: Option<u64>)
    ensures
        as_nat(r) == epoch_param(request@),
{
    let chars = chars_of(request);
    let q = match query(chars.as_slice()) {
        Some(q) => q,
        None => {
            return None;
        },
    };
    let params = split(q.as_slice(), '&');
    let ghost all = texts(params@);
    let mut i: usize = 0;
    assert(all.skip(0) =~= all);
    while i < params.len()
        invariant
            i <= params@.len(),
            all == texts(params@),
            epoch_param(request@) == first_number(all, "epoch"@),
            first_number(all, "epoch"@) == first_number(all.skip(i as int), "epoch"@),
        decreases params@.len() - i,
    {
        proof {
            assert(all.skip(i as int)[0] == params@[i as int]@);
            assert(all.skip(i as int).skip(1) =~= all.skip(i + 1));
        }
        if let Some(value) = param_value(params[i].as_slice(), "epoch") {
            return parse_number(value.as_slice(), u64::MAX);
        }
        i = i + 1;
    }
    None
}

/// The blocks that a request asks for.
pub fn parse_block_range(request: &str) -> (r: (Option<u64>, Option<u64>))
    ensures
        as_nat(r.0) == block_param(request@, "from"@),
        as_nat(r.1) == block_param(request@, "to"@),
{
    let chars = chars_of(request);
    let q = match query(chars.as_slice()) {
        Some(q) => q,
        None => {
            return (None, None);
        },
    };
    let params = split(q.as_slice(), '&');
    let ghost all = texts(params@);
    let mut from_block: Option<u64> = None;
    let mut to_block: Option<u64> = None;
    let mut i: usize = 0;
    assert(all.take(0) =~= Seq::<Seq<char>>::empty());
    while i < params.len()
        invariant
            i <= params@.len(),
            all == texts(params@),
            as_nat(from_block) == last_number(all.take(i as int), "from"@),
            as_nat(to_block) == last_number(all.take(i as int), "to"@),
        decreases params@.len() - i,
    {
        proof {
            assert(all.take(i + 1).last() == params@[i as int]@);
            assert(all.take(i + 1).drop_last() =~= all.take(i as int));
        }
        if let Some(value) = param_value(params[i].as_slice(), "from") {
            from_block = parse_number(value.as_slice(), u64::MAX);
        }
        if let Some(value) = param_value(params[i].as_slice(), "to") {
            to_block = parse_number(value.as_slice(), u64::MAX);
        }
        i = i + 1;
    }
    assert(all.take(i as int) =~= all);
    (from_block, to_block)
}

/// The last block of an answer: what was asked for, but no more than the limit.
pub open spec fn limited_to(from: u64, to: u64) -> u64 {
    if from + MAX_BLOCKS_PER_ANSWER - 1 < to {
        (from + MAX_BLOCKS_PER_ANSWER - 1) as u64
    } else {
        to
    }
}

/// A fetching node never asks for more blocks than it is answered with.
pub proof fn law_fetches_are_answered_in_full(fetch: BlockFetch)
    requires
        fetch.wf(),
    ensures
        fetch.question() matches FetchAction::AskPeer { from, to, .. } && from <= to && limited_to(
            from,
            to,
        ) == to,
{
}

/// The last block of an answer.
pub fn limit_block_range(from: u64, to: u64) -> (actual_to: u64)
    ensures
        actual_to == limited_to(from, to),
{
    let limit: u64 = from.saturating_add(MAX_BLOCKS_PER_ANSWER - 1);
    if limit < to {
        limit
    } else {
        to
    }
}

// ---------------------------------------------------------------------------------------------
// Routing
// ---------------------------------------------------------------------------------------------

/// What a request is for.
#[derive(Debug)]
pub enum Route {
    PeerInfo,
    /// The boundary of an epoch, if the request names one.
    EpochBoundary { epoch: Option<u64> },
    /// Blocks, if the request names both ends.
    Blocks { from: Option<u64>, to: Option<u64> },
    Health,
    /// Transactions, as JSON text.
    SubmitTransaction { body: String },
    NotFound,
}

/// `r` is what `request` is for.
pub open spec fn is_route(request: Seq<char>, r: Route) -> bool {
    if starts_with(request, "GET /peer_info"@) {
        r is PeerInfo
    } else if starts_with(request, "GET /get_epoch_boundary_data"@) {
        r matches Route::EpochBoundary { epoch } && as_nat(epoch) == epoch_param(request)
    } else if starts_with(request, "GET /get_blocks"@) {
        r matches Route::Blocks { from, to } && as_nat(from) == block_param(request, "from"@)
            && as_nat(to) == block_param(request, "to"@)
    } else if starts_with(request, "GET /health"@) {
        r is Health
    } else if starts_with(request, "POST /submit_transaction"@) {
        r matches Route::SubmitTransaction { body } && body@ == request.skip(body_start(request))
    } else {
        r is NotFound
    }
}

fn text_has_prefix(s: &[char], prefix: &str) -> (r: bool)
    ensures
        r == starts_with(s@, prefix@),
{
    let p = chars_of(prefix);
    has_prefix(s, p.as_slice())
}

/// Finds out what a request is for.
pub fn route(request: &str) -> (r: Route)
    ensures
        is_route(request@, r),
{
    let chars = chars_of(request);
    let s = chars.as_slice();
    if text_has_prefix(s, "GET /peer_info") {
        Route::PeerInfo
    } else if text_has_prefix(s, "GET /get_epoch_boundary_data") {
        Route::EpochBoundary { epoch: parse_epoch_param(request) }
    } else if text_has_prefix(s, "GET /get_blocks") {
        let (from, to) = parse_block_range(request);
        Route::Blocks { from, to }
    } else if text_has_prefix(s, "GET /health") {
        Route::Health
    } else if text_has_prefix(s, "POST /submit_transaction") {
        Route::SubmitTransaction { body: message_body(request) }
    } else {
        Route::NotFound
    }
}

/// Finds out what a request is for. Bytes that are not valid UTF-8 are replaced.
pub fn route_bytes(request: &[u8]) -> (r: Route)
    ensures
        is_route(lossy_text(request@), r),
{
    let text = decode_lossy(request);
    route(text.as_str())
}

// ---------------------------------------------------------------------------------------------
// Answers
// ---------------------------------------------------------------------------------------------

/// The outcome that an answer reports.
#[derive(Clone, Copy, Debug, PartialEq, Eq, Structural)]
pub enum Status {
    Success,
    /// Success, for a client that needs no access from other origins.
    SuccessPlain,
    BadRequest,
    InternalError,
    NotFound,
}

/// The head of an answer.
pub open spec fn status_text(status: Status) -> Seq<char> {
    match status {
        Status::Success => {
            "HTTP/1.1 200 OK\r\nContent-Type: application/json\r\nAccess-Control-Allow-Origin: *\r\n\r\n"@
        },
        Status::SuccessPlain => "HTTP/1.1 200 OK\r\nContent-Type: application/json\r\n\r\n"@,
        Status::BadRequest => {
            "HTTP/1.1 400 Bad Request\r\nContent-Type: application/json\r\n\r\n"@
        },
        Status::InternalError => {
            "HTTP/1.1 500 Internal Server Error\r\nContent-Type: application/json\r\n\r\n"@
        },
        Status::NotFound => "HTTP/1.1 404 Not Found\r\nContent-Type: application/json\r\n\r\n"@,
    }
}

/// An answer with a JSON body.
pub fn answer(status: Status, json: &str) -> (r: String)
    ensures
        r@ == status_text(status) + json@,
{
    let mut r = match status {
        Status::Success => copy_str(
            "HTTP/1.1 200 OK\r\nContent-Type: application/json\r\nAccess-Control-Allow-Origin: *\r\n\r\n",
        ),
        Status::SuccessPlain => copy_str("HTTP/1.1 200 OK\r\nContent-Type: application/json\r\n\r\n"),
        Status::BadRequest => copy_str(
            "HTTP/1.1 400 Bad Request\r\nContent-Type: application/json\r\n\r\n",
        ),
        Status::InternalError => copy_str(
            "HTTP/1.1 500 Internal Server Error\r\nContent-Type: application/json\r\n\r\n",
        ),
        Status::NotFound => copy_str(
            "HTTP/1.1 404 Not Found\r\nContent-Type: application/json\r\n\r\n",
        ),
    };
    r.append(json);
    r
}

/// The answer to an unknown request.
pub fn not_found() -> (r: String)
    ensures
        r@ == status_text(Status::NotFound) + "{\"error\":\"Not Found\"}"@,
{
    answer(Status::NotFound, "{\"error\":\"Not Found\"}")
}

/// The answer to the question whether the node is up.
pub fn health() -> (r: String)
    ensures
        r@ == status_text(Status::SuccessPlain) + "{\"status\":\"ok\"}"@,
{
    answer(Status::SuccessPlain, "{\"status\":\"ok\"}")
}

/// `s` with every quotation mark behind a backslash.
pub open spec fn escape_quotes(s: Seq<char>) -> Seq<char>
    decreases s.len(),
{
    if s.len() == 0 {
        Seq::empty()
    } else if s.last() == '"' {
        escape_quotes(s.drop_last()) + seq!['\\', '"']
    } else {
        escape_quotes(s.drop_last()).push(s.last())
    }
}

/// The answer when the engine could not say `what`.
pub fn engine_failure(what: &str, error: &str) -> (r: String)
    ensures
        r@ == status_text(Status::InternalError) + ("{\"error\":\"Failed to get "@ + what@ + ": "@
            + escape_quotes(error@) + "\"}"@),
{
    let mut json = copy_str("{\"error\":\"Failed to get ");
    json.append(what);
    json.append(": ");
    let chars = chars_of(error);
    let mut i: usize = 0;
    let ghost head = json@;
    assert(error@.take(0) =~= Seq::<char>::empty());
    assert(head + Seq::<char>::empty() =~= head);
    while i < chars.len()
        invariant
            i <= chars@.len(),
            chars@ == error@,
            json@ == head + escape_quotes(error@.take(i as int)),
        decreases chars@.len() - i,
    {
        proof {
            assert(error@.take(i + 1).drop_last() =~= error@.take(i as int));
            assert(error@.take(i + 1).last() == chars@[i as int]);
        }
        let ghost before = json@;
        if chars[i] == '"' {
            json.push('\\');
        }
        json.push(chars[i]);
        assert(json@ =~= head + escape_quotes(error@.take(i + 1)));
        i = i + 1;
    }
    assert(error@.take(i as int) =~= error@);
    json.append("\"}");
    answer(Status::InternalError, json.as_str())
}

/// A stake that is not a number counts as 0.
pub open spec fn stake_of(stake: Seq<char>) -> nat {
    match parsed_number(stake, u64::MAX as nat) {
        Some(n) => n,
        None => 0,
    }
}

/// Validators as they are told to other nodes.
pub fn simplify_validators(validators: &Vec<ValidatorInfo>) -> (r: Vec<ValidatorInfoSimple>)
    ensures
        r@.len() == validators@.len(),
        forall|i: int|
            0 <= i < r@.len() ==> {
                let a = validators@[i];
                let b = #[trigger] r@[i];
                &&& b.name@ == a.name@
                &&& b.address@ == a.address@
                &&& b.stake == stake_of(a.stake@)
                &&& b.protocol_key@ == a.protocol_key@
                &&& b.network_key@ == a.network_key@
                &&& b.authority_key@ == a.authority_key@
            },
{
    let mut r: Vec<ValidatorInfoSimple> = Vec::new();
    let mut i: usize = 0;
    while i < validators.len()
        invariant
            i <= validators@.len(),
            r@.len() == i,
            forall|j: int|
                0 <= j < i ==> {
                    let a = validators@[j];
                    let b = #[trigger] r@[j];
                    &&& b.name@ == a.name@
                    &&& b.address@ == a.address@
                    &&& b.stake == stake_of(a.stake@)
                    &&& b.protocol_key@ == a.protocol_key@
                    &&& b.network_key@ == a.network_key@
                    &&& b.authority_key@ == a.authority_key@
                },
        decreases validators@.len() - i,
    {
        let v = &validators[i];
        let stake_text = chars_of(v.stake.as_str());
        let stake: u64 = match parse_number(stake_text.as_slice(), u64::MAX) {
            Some(n) => n,
            None => 0,
        };
        r.push(
            ValidatorInfoSimple {
                name: copy_str(v.name.as_str()),
                address: copy_str(v.address.as_str()),
                stake,
                protocol_key: copy_str(v.protocol_key.as_str()),
                network_key: copy_str(v.network_key.as_str()),
                authority_key: copy_str(v.authority_key.as_str()),
            },
        );
        i = i + 1;
    }
    r
}

/// The headers of a request end with the first empty line: two line ends, each a carriage return
/// and a line feed.
pub proof fn law_headers_end_with_the_first_empty_line(bytes: Seq<u8>, end: Option<int>, j: int)
    requires
        is_headers_end(bytes, end),
        0 <= j <= bytes.len() - 4,
        bytes[j] == 13,
        bytes[j + 1] == 10,
        bytes[j + 2] == 13,
        bytes[j + 3] == 10,
    ensures
        end is Some,
        0 <= end->0 <= j,
        bytes[end->0] == 13,
        bytes[end->0 + 1] == 10,
        bytes[end->0 + 2] == 13,
        bytes[end->0 + 3] == 10,
{
    assert(bytes.subrange(j, j + 4) =~= header_end_mark());
    assert(headers_end_at(bytes, j));
    if end is Some {
        let i = end->0;
        let mark = bytes.subrange(i, i + 4);
        assert(mark == header_end_mark());
        assert(mark[0] == bytes[i] && mark[1] == bytes[i + 1] && mark[2] == bytes[i + 2] && mark[3]
            == bytes[i + 3]);
    }
}

/// The end that is found is one: a carriage return, a line feed, and both again.
pub proof fn law_an_empty_line_is_two_line_ends(bytes: Seq<u8>, end: Option<int>)
    requires
        is_headers_end(bytes, end),
        end is Some,
    ensures
        0 <= end->0 <= bytes.len() - 4,
        bytes[end->0] == 13,
        bytes[end->0 + 1] == 10,
        bytes[end->0 + 2] == 13,
        bytes[end->0 + 3] == 10,
{
    let i = end->0;
    let mark = bytes.subrange(i, i + 4);
    assert(mark == header_end_mark());
    assert(mark[0] == bytes[i] && mark[1] == bytes[i + 1] && mark[2] == bytes[i + 2] && mark[3]
        == bytes[i + 3]);
}

/// The letters A to Z become a to z; other characters stay.
pub proof fn law_lower_case(c: char)
    ensures
        65 <= c as int <= 90 ==> ascii_lower(c) as int == c as int + 32,
        65 > c as int || 90 < c as int ==> ascii_lower(c) == c,
{
}

/// A line begins with a name whatever the case of its letters: turning the line to lower case
/// makes no difference, and a line that begins with the name itself does.
pub proof fn law_case_makes_no_difference(line: Seq<char>, name: Seq<char>)
    ensures
        starts_with_ignoring_case(line, name) <==> name.len() <= line.len() && line.take(
            name.len() as int,
        ).map_values(|c: char| ascii_lower(c)) == name,
{
    let lower = |c: char| ascii_lower(c);
    if name.len() <= line.len() {
        let head = line.take(name.len() as int);
        let lowered = head.map_values(lower);
        if starts_with_ignoring_case(line, name) {
            assert forall|i: int| 0 <= i < name.len() implies lowered[i] == name[i] by {
                assert(ascii_lower(line[i]) == name[i]);
            }
            assert(lowered =~= name);
        }
        if lowered == name {
            assert forall|i: int| 0 <= i < name.len() implies ascii_lower(#[trigger] line[i])
                == name[i] by {
                assert(lowered[i] == name[i]);
            }
        }
    }
}

/// A header announces a length if it is called "content-length", in any case, and what stands
/// between its first colon and the next is a number between white space. The number is the
/// length.
pub proof fn law_what_a_header_announces(name: Seq<char>, value: Seq<char>, more: Seq<char>)
    requires
        name.len() == 14,
        !name.contains(':'),
        !value.contains(':'),
        name.map_values(|c: char| ascii_lower(c)) == "content-length"@,
    ensures
        announced_length(name.push(':') + value) == parsed_number(trimmed(value), usize::MAX as nat),
        announced_length(name.push(':') + value.push(':') + more) == parsed_number(
            trimmed(value),
            usize::MAX as nat,
        ),
{
    let header = "content-length:"@;
    reveal_strlit("content-length:");
    reveal_strlit("content-length");
    let lower = |c: char| ascii_lower(c);
    let lowered = name.map_values(lower);
    let short = name.push(':') + value;
    let long = name.push(':') + value.push(':') + more;
    assert forall|i: int| 0 <= i < 14 implies ascii_lower(#[trigger] name[i]) == header[i] by {
        assert(lowered[i] == ascii_lower(name[i]));
        assert(lowered[i] == "content-length"@[i]);
    }
    assert forall|i: int| 0 <= i < header.len() implies ascii_lower(#[trigger] short[i])
        == header[i] by {
        if i < 14 {
            assert(short[i] == name[i]);
        }
    }
    assert forall|i: int| 0 <= i < header.len() implies ascii_lower(#[trigger] long[i])
        == header[i] by {
        if i < 14 {
            assert(long[i] == name[i]);
        }
    }
    assert forall|i: int| 0 <= i < name.len() implies #[trigger] name[i] != ':' by {
        assert(name.contains(name[i]));
    }
    assert forall|i: int| 0 <= i < value.len() implies #[trigger] value[i] != ':' by {
        assert(value.contains(value[i]));
    }
    lemma_split_first(name, ':', value);
    lemma_split_one(value, ':');
    assert(long =~= name.push(':') + (value.push(':') + more));
    lemma_split_first(name, ':', value.push(':') + more);
    lemma_split_first(value, ':', more);
}

/// A line with another name announces nothing.
pub proof fn law_other_headers_announce_nothing(line: Seq<char>)
    ensures
        line.len() < 15 ==> announced_length(line) is None,
        line.len() >= 15 && line.take(15).map_values(|c: char| ascii_lower(c)) != "content-length:"@
            ==> announced_length(line) is None,
{
    reveal_strlit("content-length:");
    law_case_makes_no_difference(line, "content-length:"@);
}

/// The first line that announces a length counts; without one the length is 0.
pub proof fn law_the_first_announcement_of_a_length_counts(
    before: Seq<Seq<char>>,
    line: Seq<char>,
    after: Seq<Seq<char>>,
)
    requires
        forall|i: int| 0 <= i < before.len() ==> announced_length(#[trigger] before[i]) is None,
    ensures
        first_length(before) == 0,
        announced_length(line) is Some ==> first_length(before.push(line) + after)
            == announced_length(line)->0,
    decreases before.len(),
{
    let all = before.push(line) + after;
    if before.len() > 0 {
        let rest = before.skip(1);
        assert forall|i: int| 0 <= i < rest.len() implies announced_length(
            #[trigger] rest[i],
        ) is None by {
            assert(rest[i] == before[i + 1]);
        }
        law_the_first_announcement_of_a_length_counts(rest, line, after);
        assert(all[0] == before[0]);
        assert(all.skip(1) =~= rest.push(line) + after);
    } else {
        assert(all[0] == line);
    }
}

/// The lines of the headers end with line feeds.
pub proof fn law_headers_are_read_line_by_line(line: Seq<char>, rest: Seq<char>)
    requires
        !line.contains('\n'),
    ensures
        content_length_of(line) == match announced_length(line) {
            Some(n) => n,
            None => 0,
        },
        content_length_of(line.push('\n') + rest) == match announced_length(line) {
            Some(n) => n,
            None => content_length_of(rest),
        },
{
    assert forall|i: int| 0 <= i < line.len() implies #[trigger] line[i] != '\n' by {
        assert(line.contains(line[i]));
    }
    lemma_split_one(line, '\n');
    lemma_split_first(line, '\n', rest);
    let one = seq![line];
    assert(one.skip(1) =~= Seq::<Seq<char>>::empty());
    assert(first_length(one.skip(1)) == 0);
    let all = seq![line] + split_on(rest, '\n');
    assert(all[0] == line);
    assert(all.skip(1) =~= split_on(rest, '\n'));
}

/// A whole request is as long as its headers, the four bytes of the empty line and the body that
/// the headers announce, capped at the greatest length there is.
pub proof fn law_how_long_a_request_is(bytes: Seq<u8>, end: int)
    requires
        0 <= end <= bytes.len(),
    ensures
        ({
            let announced = content_length_of(lossy_text(bytes.take(end)));
            &&& end + 4 + announced <= usize::MAX ==> request_len(bytes, end) == end + 4 + announced
            &&& end + 4 + announced > usize::MAX ==> request_len(bytes, end) == usize::MAX
        }),
{
}

/// The query stands between the first question mark and the first blank behind it, or the end.
pub proof fn law_where_the_query_stands(path: Seq<char>, q: Seq<char>, rest: Seq<char>)
    requires
        !path.contains('?'),
        !q.contains(' '),
    ensures
        query_of(path) is None,
        query_of(path.push('?') + q) == Some(q),
        query_of(path.push('?') + q.push(' ') + rest) == Some(q),
{
    let mark = seq!['?'];
    let blank = seq![' '];
    law_search_finds_the_first_place(path, mark);
    if first_occurrence(path, mark) is Some {
        let i = first_occurrence(path, mark)->0;
        assert(path.subrange(i, i + 1)[0] == path[i]);
        assert(path.contains(path[i]));
    }
    let short = path.push('?') + q;
    let long = path.push('?') + q.push(' ') + rest;
    assert forall|i: int| 0 <= i < path.len() implies short[i] != '?' && long[i] != '?' by {
        assert(path.contains(path[i]));
        assert(short[i] == path[i] && long[i] == path[i]);
    }
    lemma_first_char(short, '?', path.len() as int);
    lemma_first_char(long, '?', path.len() as int);
    let after_short = short.skip(path.len() as int);
    let after_long = long.skip(path.len() as int);
    assert(after_short =~= mark + q);
    assert(after_long =~= mark + q.push(' ') + rest);
    law_search_finds_the_first_place(after_short, blank);
    if first_occurrence(after_short, blank) is Some {
        let i = first_occurrence(after_short, blank)->0;
        assert(after_short.subrange(i, i + 1)[0] == after_short[i]);
        assert(i > 0);
        assert(after_short[i] == q[i - 1]);
        assert(q.contains(q[i - 1]));
    }
    assert(after_short.skip(1) =~= q);
    assert forall|i: int| 0 <= i < q.len() + 1 implies after_long[i] != ' ' by {
        if i > 0 {
            assert(after_long[i] == q[i - 1]);
            assert(q.contains(q[i - 1]));
        }
    }
    lemma_first_char(after_long, ' ', q.len() as int + 1);
    assert(after_long.subrange(1, q.len() as int + 1) =~= q);
}

/// A parameter is its name, one equals sign and its value. With another name, without an equals
/// sign or with two it is not the parameter looked for.
pub proof fn law_names_and_values(name: Seq<char>, value: Seq<char>, key: Seq<char>, more: Seq<char>)
    requires
        !name.contains('='),
        !value.contains('='),
    ensures
        name == key ==> value_of(name.push('=') + value, key) == Some(value),
        name != key ==> value_of(name.push('=') + value, key) is None,
        value_of(name, key) is None,
        value_of(name.push('=') + (value.push('=') + more), key) is None,
{
    assert forall|i: int| 0 <= i < name.len() implies #[trigger] name[i] != '=' by {
        assert(name.contains(name[i]));
    }
    assert forall|i: int| 0 <= i < value.len() implies #[trigger] value[i] != '=' by {
        assert(value.contains(value[i]));
    }
    lemma_split_one(name, '=');
    lemma_split_one(value, '=');
    lemma_split_first(name, '=', value);
    lemma_split_first(name, '=', value.push('=') + more);
    lemma_split_first(value, '=', more);
    lemma_split_nonempty(more, '=');
}

/// The first parameter with the name gives the epoch, even if it is no number.
pub proof fn law_the_first_epoch_counts(
    before: Seq<Seq<char>>,
    param: Seq<char>,
    after: Seq<Seq<char>>,
    key: Seq<char>,
)
    requires
        forall|i: int| 0 <= i < before.len() ==> value_of(#[trigger] before[i], key) is None,
    ensures
        first_number(before, key) is None,
        value_of(param, key) is Some ==> first_number(before.push(param) + after, key)
            == parsed_number(value_of(param, key)->0, u64::MAX as nat),
    decreases before.len(),
{
    let all = before.push(param) + after;
    if before.len() > 0 {
        let rest = before.skip(1);
        assert forall|i: int| 0 <= i < rest.len() implies value_of(
            #[trigger] rest[i],
            key,
        ) is None by {
            assert(rest[i] == before[i + 1]);
        }
        law_the_first_epoch_counts(rest, param, after, key);
        assert(all[0] == before[0]);
        assert(all.skip(1) =~= rest.push(param) + after);
    } else {
        assert(all[0] == param);
    }
}

/// The last parameter with the name gives the end of the range, even if it is no number.
pub proof fn law_the_last_block_number_counts(
    before: Seq<Seq<char>>,
    param: Seq<char>,
    after: Seq<Seq<char>>,
    key: Seq<char>,
)
    requires
        forall|i: int| 0 <= i < after.len() ==> value_of(#[trigger] after[i], key) is None,
    ensures
        last_number(after, key) is None,
        value_of(param, key) is Some ==> last_number(before.push(param) + after, key)
            == parsed_number(value_of(param, key)->0, u64::MAX as nat),
    decreases after.len(),
{
    let all = before.push(param) + after;
    if after.len() > 0 {
        let rest = after.drop_last();
        assert forall|i: int| 0 <= i < rest.len() implies value_of(
            #[trigger] rest[i],
            key,
        ) is None by {
            assert(rest[i] == after[i]);
        }
        law_the_last_block_number_counts(before, param, rest, key);
        assert(after.last() == after[after.len() - 1]);
        assert(all.last() == after.last());
        assert(all.drop_last() =~= before.push(param) + rest);
    } else {
        assert(all.last() == param);
        assert(all =~= before.push(param));
    }
}

/// The parameters of a query stand between ampersands. The epoch is the parameter "epoch"; the
/// ends of a range are looked up by their own names. Without a query there are none.
pub proof fn law_where_parameters_are_looked_for(request: Seq<char>, key: Seq<char>)
    ensures
        query_of(request) is None ==> epoch_param(request) is None && block_param(request, key) is None,
        query_of(request) is Some ==> epoch_param(request) == first_number(
            split_on(query_of(request)->0, '&'),
            "epoch"@,
        ) && block_param(request, key) == last_number(split_on(query_of(request)->0, '&'), key),
        as_nat(None) == None::<nat>,
        forall|n: u64| #[trigger] as_nat(Some(n)) == Some(n as nat),
{
}

/// Five blocks at most are answered with, the first of those that were asked for.
pub proof fn law_five_blocks_are_answered_with(from: u64, to: u64)
    ensures
        limited_to(from, to) <= to,
        limited_to(from, to) <= from + 4,
        limited_to(from, to) == to || limited_to(from, to) == from + 4,
{
}

/// What a request is for is told by its method and the beginning of its path. All that is known
/// comes in its own way; anything else is not found.
pub proof fn law_what_requests_are_for(request: Seq<char>, rest: Seq<char>, r: Route)
    requires
        is_route(request, r),
    ensures
        request == "GET /peer_info"@ + rest ==> r is PeerInfo,
        request == "GET /get_epoch_boundary_data"@ + rest ==> (r matches Route::EpochBoundary {
            epoch,
        } && as_nat(epoch) == epoch_param(request)),
        request == "GET /get_blocks"@ + rest ==> (r matches Route::Blocks { from, to } && as_nat(
            from,
        ) == block_param(request, "from"@) && as_nat(to) == block_param(request, "to"@)),
        request == "GET /health"@ + rest ==> r is Health,
        request == "POST /submit_transaction"@ + rest ==> (r matches Route::SubmitTransaction {
            body,
        } && body@ == request.skip(body_start(request))),
{
    reveal_strlit("GET /peer_info");
    reveal_strlit("GET /get_epoch_boundary_data");
    reveal_strlit("GET /get_blocks");
    reveal_strlit("GET /health");
    reveal_strlit("POST /submit_transaction");
    law_prefix(request, "GET /peer_info"@);
    law_prefix(request, "GET /get_epoch_boundary_data"@);
    law_prefix(request, "GET /get_blocks"@);
    law_prefix(request, "GET /health"@);
    law_prefix(request, "POST /submit_transaction"@);
    if request == "GET /get_epoch_boundary_data"@ + rest {
        assert(request[5] == 'g');
    }
    if request == "GET /get_blocks"@ + rest {
        assert(request[5] == 'g' && request[9] == 'b');
    }
    if request == "GET /health"@ + rest {
        assert(request[5] == 'h');
    }
    if request == "POST /submit_transaction"@ + rest {
        assert(request[0] == 'P');
    }
}

/// A request that begins in no known way is not found.
pub proof fn law_other_requests_are_not_found(request: Seq<char>, r: Route)
    requires
        is_route(request, r),
        request.len() < 11 || request.take(11) != "GET /health"@,
        request.len() < 14 || request.take(14) != "GET /peer_info"@,
        request.len() < 15 || request.take(15) != "GET /get_blocks"@,
        request.len() < 24 || request.take(24) != "POST /submit_transaction"@,
        request.len() < 28 || request.take(28) != "GET /get_epoch_boundary_data"@,
    ensures
        r is NotFound,
{
    reveal_strlit("GET /peer_info");
    reveal_strlit("GET /get_epoch_boundary_data");
    reveal_strlit("GET /get_blocks");
    reveal_strlit("GET /health");
    reveal_strlit("POST /submit_transaction");
}

/// The head of an answer is a status line, the type of the body and an empty line.
pub proof fn law_heads_of_answers(status: Status)
    ensures
        status is Success ==> status_text(status) == "HTTP/1.1 200 OK\r\n"@
            + "Content-Type: application/json\r\n"@ + "Access-Control-Allow-Origin: *\r\n"@
            + "\r\n"@,
        status is SuccessPlain ==> status_text(status) == "HTTP/1.1 200 OK\r\n"@
            + "Content-Type: application/json\r\n"@ + "\r\n"@,
        status is BadRequest ==> status_text(status) == "HTTP/1.1 400 Bad Request\r\n"@
            + "Content-Type: application/json\r\n"@ + "\r\n"@,
        status is InternalError ==> status_text(status)
            == "HTTP/1.1 500 Internal Server Error\r\n"@ + "Content-Type: application/json\r\n"@
            + "\r\n"@,
        status is NotFound ==> status_text(status) == "HTTP/1.1 404 Not Found\r\n"@
            + "Content-Type: application/json\r\n"@ + "\r\n"@,
{
    reveal_strlit("HTTP/1.1 200 OK\r\n");
    reveal_strlit("HTTP/1.1 400 Bad Request\r\n");
    reveal_strlit("HTTP/1.1 500 Internal Server Error\r\n");
    reveal_strlit("HTTP/1.1 404 Not Found\r\n");
    reveal_strlit("Content-Type: application/json\r\n");
    reveal_strlit("Access-Control-Allow-Origin: *\r\n");
    reveal_strlit("\r\n");
    reveal_strlit(
        "HTTP/1.1 200 OK\r\nContent-Type: application/json\r\nAccess-Control-Allow-Origin: *\r\n\r\n",
    );
    reveal_strlit("HTTP/1.1 200 OK\r\nContent-Type: application/json\r\n\r\n");
    reveal_strlit("HTTP/1.1 400 Bad Request\r\nContent-Type: application/json\r\n\r\n");
    reveal_strlit("HTTP/1.1 500 Internal Server Error\r\nContent-Type: application/json\r\n\r\n");
    reveal_strlit("HTTP/1.1 404 Not Found\r\nContent-Type: application/json\r\n\r\n");
    let kind = "Content-Type: application/json\r\n"@;
    let end = "\r\n"@;
    match status {
        Status::Success => {
            assert(status_text(status) =~= "HTTP/1.1 200 OK\r\n"@ + kind
                + "Access-Control-Allow-Origin: *\r\n"@ + end);
        },
        Status::SuccessPlain => {
            assert(status_text(status) =~= "HTTP/1.1 200 OK\r\n"@ + kind + end);
        },
        Status::BadRequest => {
            assert(status_text(status) =~= "HTTP/1.1 400 Bad Request\r\n"@ + kind + end);
        },
        Status::InternalError => {
            assert(status_text(status) =~= "HTTP/1.1 500 Internal Server Error\r\n"@ + kind + end);
        },
        Status::NotFound => {
            assert(status_text(status) =~= "HTTP/1.1 404 Not Found\r\n"@ + kind + end);
        },
    }
}

/// A backslash goes in front of each quotation mark, and nothing else changes: a text is escaped
/// character by character.
pub proof fn law_quotation_marks_are_escaped(a: Seq<char>, b: Seq<char>)
    ensures
        escape_quotes(a + b) == escape_quotes(a) + escape_quotes(b),
        escape_quotes(seq!['"']) == seq!['\\', '"'],
        !a.contains('"') ==> escape_quotes(a) == a,
    decreases b.len(),
{
    let quote = seq!['"'];
    assert(quote.drop_last() =~= Seq::<char>::empty());
    assert(escape_quotes(quote.drop_last()) == Seq::<char>::empty());
    assert(escape_quotes(quote) =~= seq!['\\', '"']);
    if !a.contains('"') {
        lemma_nothing_to_escape(a);
    }
    if b.len() > 0 {
        law_quotation_marks_are_escaped(a, b.drop_last());
        assert((a + b).drop_last() =~= a + b.drop_last());
        assert((a + b).last() == b.last());
        assert(escape_quotes(a + b) =~= escape_quotes(a) + escape_quotes(b));
    } else {
        assert(a + b =~= a);
        assert(escape_quotes(a) + escape_quotes(b) =~= escape_quotes(a));
    }
}

proof fn lemma_nothing_to_escape(a: Seq<char>)
    requires
        !a.contains('"'),
    ensures
        escape_quotes(a) == a,
    decreases a.len(),
{
    if a.len() > 0 {
        let front = a.drop_last();
        assert forall|i: int| 0 <= i < front.len() implies front[i] != '"' by {
            assert(a.contains(a[i]));
        }
        lemma_nothing_to_escape(front);
        assert(a.last() == a[a.len() - 1]);
        assert(a.contains(a.last()));
        assert(front.push(a.last()) =~= a);
    } else {
        assert(a =~= Seq::<char>::empty());
    }
}

/// A stake is the number that its text shows, and 0 if the text is no number.
pub proof fn law_what_a_stake_is(n: u64, text: Seq<char>)
    ensures
        stake_of(decimal(n as nat)) == n,
        parsed_number(text, u64::MAX as nat) is None ==> stake_of(text) == 0,
{
    law_decimal_round_trip(n as nat, u64::MAX as nat);
}

} // verus!
