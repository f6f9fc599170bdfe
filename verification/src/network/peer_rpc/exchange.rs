//! Requests and answers fit together: a node understands what another one asks, and gets out of an
//! answer what was put into it.

use vstd::prelude::*;

use crate::network::peer_rpc::client::{
    body_start, get_request_text, submit_headers, submit_request_text,
};
use crate::network::peer_rpc::server::{
    announced_length, ascii_lower, block_param, content_length_of, epoch_param, first_length,
    first_number, is_route, last_number, query_of, starts_with_ignoring_case, status_text, value_of,
    Route, Status,
};
use crate::text::{
    decimal, is_digit, law_decimal_round_trip, lemma_decimal_value, lemma_first_char,
    lemma_first_occurrence, lemma_split_first, lemma_split_one, occurs_at, split_on,
    starts_with, trim_end, trim_start, trimmed,
};

verus! {

/// No digit of a number is `c`.
proof fn lemma_not_a_digit(n: nat, c: char)
    requires
        !is_digit(c),
    ensures
        forall|i: int| 0 <= i < decimal(n).len() ==> #[trigger] decimal(n)[i] != c,
{
    lemma_decimal_value(n);
}

/// The query of a request for `path?query`.
proof fn lemma_query_of_request(path: Seq<char>, query: Seq<char>, host: Seq<char>)
    requires
        forall|i: int| 0 <= i < path.len() ==> #[trigger] path[i] != '?',
        forall|i: int| 0 <= i < query.len() ==> #[trigger] query[i] != ' ',
    ensures
        query_of(get_request_text(path.push('?') + query, host)) == Some(query),
{
    reveal_strlit("GET ");
    reveal_strlit(" HTTP/1.1\r\nHost: ");
    let target = path.push('?') + query;
    let head = "GET "@ + target;
    let request = get_request_text(target, host);
    let q = 4 + path.len() as int;
    assert forall|j: int| 0 <= j < q implies #[trigger] request[j] != '?' by {
        if j >= 4 {
            assert(request[j] == path[j - 4]);
        }
    }
    assert(request[q] == target[path.len() as int]);
    lemma_first_char(request, '?', q);
    let rest = request.skip(q);
    let e = 1 + query.len() as int;
    assert forall|j: int| 0 <= j < e implies #[trigger] rest[j] != ' ' by {
        assert(rest[j] == request[q + j]);
        if j >= 1 {
            assert(request[q + j] == target[path.len() + j]);
            assert(target[path.len() + j] == query[j - 1]);
        }
    }
    assert(rest[e] == request[q + e]);
    assert(request[q + e] == " HTTP/1.1\r\nHost: "@[0]);
    lemma_first_char(rest, ' ', e);
    assert(rest.subrange(1, e) =~= query) by {
        assert forall|j: int| 0 <= j < query.len() implies rest.subrange(1, e)[j] == query[j] by {
            assert(rest[j + 1] == request[q + j + 1]);
            assert(request[q + j + 1] == target[path.len() + j + 1]);
        }
    }
}

/// The value of `key=number`.
proof fn lemma_value_of_param(key: Seq<char>, n: nat)
    requires
        forall|i: int| 0 <= i < key.len() ==> #[trigger] key[i] != '=',
    ensures
        value_of(key.push('=') + decimal(n), key) == Some(decimal(n)),
{
    lemma_not_a_digit(n, '=');
    lemma_split_first(key, '=', decimal(n));
    lemma_split_one(decimal(n), '=');
    let parts = split_on(key.push('=') + decimal(n), '=');
    assert(parts == seq![key] + seq![decimal(n)]);
    assert(parts[0] == key && parts[1] == decimal(n));
}

/// A request for the boundary of an epoch is understood as that, with the epoch that was asked for.
pub proof fn law_boundary_request_is_understood(epoch: u64, host: Seq<char>, r: Route)
    requires
        is_route(
            get_request_text("/get_epoch_boundary_data?epoch="@ + decimal(epoch as nat), host),
            r,
        ),
    ensures
        r == (Route::EpochBoundary { epoch: Some(epoch) }),
{
    reveal_strlit("GET ");
    reveal_strlit("GET /peer_info");
    reveal_strlit("GET /get_epoch_boundary_data");
    reveal_strlit("/get_epoch_boundary_data?epoch=");
    reveal_strlit("epoch");
    let n = epoch as nat;
    let target = "/get_epoch_boundary_data?epoch="@ + decimal(n);
    let request = get_request_text(target, host);
    let path = "/get_epoch_boundary_data?epoch="@.take(24);
    let key = "epoch"@;
    let query = key.push('=') + decimal(n);
    lemma_not_a_digit(n, ' ');
    lemma_not_a_digit(n, '&');
    assert(target =~= path.push('?') + query);
    lemma_query_of_request(path, query, host);
    assert(!starts_with(request, "GET /peer_info"@)) by {
        assert(request[5] == target[1]);
        if starts_with(request, "GET /peer_info"@) {
            assert(request.take(14)[5] == request[5]);
        }
    }
    assert(starts_with(request, "GET /get_epoch_boundary_data"@)) by {
        assert(request.take(28) =~= "GET /get_epoch_boundary_data"@);
    }
    lemma_split_one(query, '&');
    lemma_value_of_param(key, n);
    law_decimal_round_trip(n, u64::MAX as nat);
    let params = split_on(query, '&');
    assert(params[0] == query);
    assert(first_number(params, key) == Some(n));
    assert(epoch_param(request) == Some(n));
}

/// A request for blocks is understood as that, with the ends that were asked for.
pub proof fn law_blocks_request_is_understood(from: u64, to: u64, host: Seq<char>, r: Route)
    requires
        is_route(
            get_request_text(
                "/get_blocks?from="@ + decimal(from as nat) + "&to="@ + decimal(to as nat),
                host,
            ),
            r,
        ),
    ensures
        r == (Route::Blocks { from: Some(from), to: Some(to) }),
{
    reveal_strlit("GET ");
    reveal_strlit("GET /peer_info");
    reveal_strlit("GET /get_epoch_boundary_data");
    reveal_strlit("GET /get_blocks");
    reveal_strlit("/get_blocks?from=");
    reveal_strlit("&to=");
    reveal_strlit("from");
    reveal_strlit("to");
    let (f, t) = (from as nat, to as nat);
    let target = "/get_blocks?from="@ + decimal(f) + "&to="@ + decimal(t);
    let request = get_request_text(target, host);
    let path = "/get_blocks?from="@.take(11);
    let first = "from"@.push('=') + decimal(f);
    let second = "to"@.push('=') + decimal(t);
    let query = first.push('&') + second;
    lemma_not_a_digit(f, ' ');
    lemma_not_a_digit(t, ' ');
    lemma_not_a_digit(f, '&');
    lemma_not_a_digit(t, '&');
    assert(target =~= path.push('?') + query);
    lemma_query_of_request(path, query, host);
    assert(!starts_with(request, "GET /peer_info"@)) by {
        assert(request[5] == target[1]);
        if starts_with(request, "GET /peer_info"@) {
            assert(request.take(14)[5] == request[5]);
        }
    }
    assert(!starts_with(request, "GET /get_epoch_boundary_data"@)) by {
        assert(request[9] == target[5]);
        if starts_with(request, "GET /get_epoch_boundary_data"@) {
            assert(request.take(28)[9] == request[9]);
        }
    }
    assert(starts_with(request, "GET /get_blocks"@)) by {
        assert(request.take(15) =~= "GET /get_blocks"@);
    }
    lemma_split_first(first, '&', second);
    lemma_split_one(second, '&');
    let params = split_on(query, '&');
    assert(params == seq![first] + seq![second]);
    assert(params.last() == second);
    assert(params.drop_last() =~= seq![first]);
    lemma_value_of_param("from"@, f);
    lemma_value_of_param("to"@, t);
    law_decimal_round_trip(f, u64::MAX as nat);
    law_decimal_round_trip(t, u64::MAX as nat);
    assert(value_of(second, "from"@) is None) by {
        lemma_not_a_digit(t, '=');
        lemma_split_first("to"@, '=', decimal(t));
        lemma_split_one(decimal(t), '=');
        assert(split_on(second, '=')[0] == "to"@);
        assert("to"@.len() != "from"@.len());
    }
    assert(last_number(params, "to"@) == Some(t));
    assert(seq![first].last() == first);
    assert(last_number(seq![first], "from"@) == Some(f));
    assert(last_number(params, "from"@) == Some(f));
    assert(block_param(request, "from"@) == Some(f));
    assert(block_param(request, "to"@) == Some(t));
}

/// The headers end where the first empty line is.
proof fn lemma_body_behind(head: Seq<char>, body: Seq<char>)
    requires
        head.len() >= 4,
        occurs_at(head, "\r\n\r\n"@, head.len() - 4),
        forall|j: int|
            0 <= j < head.len() - 4 ==> !(#[trigger] head[j] == '\r' && head[j + 2] == '\r'),
    ensures
        (head + body).skip(body_start(head + body)) == body,
{
    reveal_strlit("\r\n\r\n");
    let s = head + body;
    let mark = "\r\n\r\n"@;
    let at = head.len() - 4;
    assert(s.subrange(at, at + 4) =~= head.subrange(at, at + 4));
    assert forall|j: int| 0 <= j < at implies !#[trigger] occurs_at(s, mark, j) by {
        if occurs_at(s, mark, j) {
            let w = s.subrange(j, j + 4);
            assert(w[0] == s[j] && w[2] == s[j + 2]);
            assert(s[j] == head[j] && s[j + 2] == head[j + 2]);
        }
    }
    lemma_first_occurrence(s, mark, at);
    assert(s.skip(head.len() as int) =~= body);
}

/// What is put into an answer comes out of it.
pub proof fn law_answer_round_trip(status: Status, json: Seq<char>)
    ensures
        (status_text(status) + json).skip(body_start(status_text(status) + json)) == json,
{
    reveal_strlit("\r\n\r\n");
    reveal_strlit(
        "HTTP/1.1 200 OK\r\nContent-Type: application/json\r\nAccess-Control-Allow-Origin: *\r\n\r\n",
    );
    reveal_strlit("HTTP/1.1 200 OK\r\nContent-Type: application/json\r\n\r\n");
    reveal_strlit("HTTP/1.1 400 Bad Request\r\nContent-Type: application/json\r\n\r\n");
    reveal_strlit("HTTP/1.1 500 Internal Server Error\r\nContent-Type: application/json\r\n\r\n");
    reveal_strlit("HTTP/1.1 404 Not Found\r\nContent-Type: application/json\r\n\r\n");
    let head = status_text(status);
    assert(head.subrange(head.len() - 4, head.len() as int) =~= "\r\n\r\n"@);
    lemma_body_behind(head, json);
}

/// Neither a carriage return nor a line feed.
pub open spec fn is_one_line(s: Seq<char>) -> bool {
    forall|i: int| 0 <= i < s.len() ==> #[trigger] s[i] != '\r' && s[i] != '\n'
}

/// A number behind a blank is the number.
proof fn lemma_trimmed_number(n: nat)
    ensures
        trimmed(seq![' '] + decimal(n)) == decimal(n),
{
    lemma_decimal_value(n);
    let d = decimal(n);
    let s = seq![' '] + d;
    assert(s.skip(1) =~= d);
    assert(is_digit(d[0]) && is_digit(d.last()));
    assert(trim_start(d) == d);
    assert(trim_start(s) == d);
    assert(trim_end(d) == d);
}

/// The headers of a submission announce the length of its body.
pub proof fn law_submission_announces_its_length(host: Seq<char>, body_len: nat)
    requires
        is_one_line(host),
        body_len <= usize::MAX,
    ensures
        content_length_of(submit_headers(host, body_len)) == body_len,
{
    reveal_strlit("POST /submit_transaction HTTP/1.1\r\nHost: ");
    reveal_strlit("\r\nContent-Type: application/json\r\nContent-Length: ");
    reveal_strlit("content-length:");
    let name = "content-length:"@;
    let one = "POST /submit_transaction HTTP/1.1\r\nHost: "@;
    let two = "\r\nContent-Type: application/json\r\nContent-Length: "@;
    let l0 = one.take(34);
    let l1 = one.skip(35) + host + seq!['\r'];
    let l2 = two.subrange(2, 33);
    let l3 = two.skip(34) + decimal(body_len);
    let headers = submit_headers(host, body_len);
    lemma_not_a_digit(body_len, '\n');
    lemma_not_a_digit(body_len, ':');
    let tail = l2.push('\n') + l3;
    let rest = l1.push('\n') + tail;
    assert(headers =~= l0.push('\n') + rest);
    lemma_split_first(l0, '\n', rest);
    lemma_split_first(l1, '\n', tail);
    lemma_split_first(l2, '\n', l3);
    lemma_split_one(l3, '\n');
    let lines = split_on(headers, '\n');
    assert(lines =~= seq![l0, l1, l2, l3]);
    assert(!starts_with_ignoring_case(l0, name)) by {
        assert(ascii_lower(l0[0]) != name[0]);
    }
    assert(!starts_with_ignoring_case(l1, name)) by {
        assert(ascii_lower(l1[0]) != name[0]);
    }
    assert(!starts_with_ignoring_case(l2, name)) by {
        assert(ascii_lower(l2[8]) != name[8]);
    }
    assert(starts_with_ignoring_case(l3, name)) by {
        assert forall|i: int| 0 <= i < name.len() implies ascii_lower(#[trigger] l3[i]) == name[i] by {
            assert(l3[i] == two[34 + i]);
        }
    }
    let key = two.subrange(34, 48);
    let value = seq![' '] + decimal(body_len);
    assert(l3 =~= key.push(':') + value);
    lemma_split_first(key, ':', value);
    lemma_split_one(value, ':');
    let parts = split_on(l3, ':');
    assert(parts =~= seq![key, value]);
    lemma_trimmed_number(body_len);
    law_decimal_round_trip(body_len, usize::MAX as nat);
    assert(announced_length(l3) == Some(body_len));
    assert(lines.skip(1) =~= seq![l1, l2, l3]);
    assert(lines.skip(1).skip(1) =~= seq![l2, l3]);
    assert(lines.skip(1).skip(1).skip(1) =~= seq![l3]);
    reveal_with_fuel(first_length, 5);
}

/// What is submitted comes out of the request.
pub proof fn law_submission_round_trip(
    host: Seq<char>,
    body_len: nat,
    body: Seq<char>,
    r: Route,
)
    requires
        is_one_line(host),
        is_route(submit_request_text(host, body_len, body), r),
    ensures
        r matches Route::SubmitTransaction { body: read } && read@ == body,
{
    reveal_strlit("POST /submit_transaction HTTP/1.1\r\nHost: ");
    reveal_strlit("\r\nContent-Type: application/json\r\nContent-Length: ");
    reveal_strlit("\r\n\r\n");
    reveal_strlit("GET /peer_info");
    reveal_strlit("GET /get_epoch_boundary_data");
    reveal_strlit("GET /get_blocks");
    reveal_strlit("GET /health");
    reveal_strlit("POST /submit_transaction");
    lemma_not_a_digit(body_len, '\r');
    let request = submit_request_text(host, body_len, body);
    let head = submit_headers(host, body_len) + "\r\n\r\n"@;
    assert(request[0] == 'P');
    assert(forall|p: Seq<char>| p.len() > 0 && p[0] == 'G' ==> !#[trigger] starts_with(request, p))
        by {
        assert forall|p: Seq<char>| p.len() > 0 && p[0] == 'G' implies !#[trigger] starts_with(
            request,
            p,
        ) by {
            if starts_with(request, p) {
                assert(request.take(p.len() as int)[0] == request[0]);
            }
        }
    }
    assert(starts_with(request, "POST /submit_transaction"@)) by {
        assert(request.take(24) =~= "POST /submit_transaction"@);
    }
    assert(head.subrange(head.len() - 4, head.len() as int) =~= "\r\n\r\n"@);
    let one = "POST /submit_transaction HTTP/1.1\r\nHost: "@;
    let two = "\r\nContent-Type: application/json\r\nContent-Length: "@;
    let (a, b) = (one.len() as int, (one.len() + host.len()) as int);
    let c = b + two.len() as int;
    let digits = decimal(body_len);
    assert forall|j: int| 0 <= j < head.len() - 4 implies !(#[trigger] head[j] == '\r' && head[j + 2]
        == '\r') by {
        if a <= j < b {
            assert(head[j] == host[j - a]);
        } else if b <= j < c {
            assert(head[j] == two[j - b]);
            if j + 2 < c {
                assert(head[j + 2] == two[j + 2 - b]);
            }
        } else if c <= j {
            assert(head[j] == digits[j - c]);
        } else {
            assert(head[j] == one[j]);
            if j + 2 < a {
                assert(head[j + 2] == one[j + 2]);
            }
        }
    }
    lemma_body_behind(head, body);
    assert(request =~= head + body);
}

} // verus!
