//! Properties that tie the client and the server together: what one side
//! writes, the other side reads as meant.

use vstd::prelude::*;
use vstd::utf8::{encode_utf8, encode_utf8_decode_utf8};
use crate::client::{
    answer_header_step, basic_token, credentials_text, http_request_text, status_error_text,
};
use crate::http::{content_length_of_line, is_authorization_line, is_content_length_line};
use crate::number::{is_digit, lemma_decimal_text, lemma_parse_decimal_text};
use crate::codec::{lemma_base64_injective, lemma_base64_shape};
use crate::number::decimal_text;
use crate::server::{
    bad_request_text, expected_authorization_text, ok_response_text, request_header_step,
    unauthorized_text,
};
use crate::text::{
    ascii_lower_code, contains_text, eq_ignore_ascii_case, is_white_space,
    lemma_prefix_ignore_case, lemma_trim_end_aligned, lemma_trim_start_white_head,
    lemma_white_space_aligned, trim_end, lemma_trim_end_white_tail, lemma_trim_start_unchanged, trim,
};

verus! {

/// The UTF-8 encoding of a non-empty text is not empty.
proof fn lemma_utf8_not_empty(s: Seq<char>)
    requires
        s.len() > 0,
    ensures
        encode_utf8(s).len() > 0,
{
}

/// The basic token is not empty and holds no white space.
proof fn lemma_token_shape(user: Seq<char>, password: Seq<char>)
    ensures
        basic_token(user, password).len() > 0,
        forall|i: int|
            0 <= i < basic_token(user, password).len() ==> !is_white_space(
                #[trigger] basic_token(user, password)[i],
            ),
{
    lemma_utf8_not_empty(credentials_text(user, password));
    lemma_base64_shape(encode_utf8(credentials_text(user, password)));
}

/// The client's request carries its credentials on a line of their own, and
/// the server, reading that line in any state, records exactly the
/// authorization it expects of the same user and password.
pub proof fn law_client_credentials_admitted(
    addr: Seq<char>,
    user: Seq<char>,
    password: Seq<char>,
    body: Seq<char>,
    authorization: Option<Seq<char>>,
    length: nat,
)
    ensures
        ({
            let token = basic_token(user, password);
            let line = "Authorization: Basic "@ + token + "\r\n"@;
            &&& http_request_text(addr, token, body) == "POST / HTTP/1.1\r\nHost: "@ + addr
                + "\r\n"@ + line + "Content-Type: application/json\r\nContent-Length: "@
                + decimal_text(encode_utf8(body).len()) + "\r\nConnection: close\r\n\r\n"@ + body
            &&& request_header_step(authorization, length, line) == Some(
                (Some(expected_authorization_text(user, password)), length),
            )
        }),
{
    reveal_strlit("Authorization: Basic ");
    reveal_strlit("\r\n");
    reveal_strlit("\r\nAuthorization: Basic ");
    reveal_strlit("\r\nContent-Type: application/json\r\nContent-Length: ");
    reveal_strlit("Content-Type: application/json\r\nContent-Length: ");
    reveal_strlit("authorization: ");
    reveal_strlit("Basic ");
    let token = basic_token(user, password);
    let a = "Authorization: Basic "@;
    let line = a + token + "\r\n"@;
    let s = a + token;
    lemma_token_shape(user, password);
    assert(s.last() == token.last());
    lemma_trim_end_white_tail(s, "\r\n"@);
    assert(line =~= s + "\r\n"@);
    assert(line[0] == 'A');
    lemma_trim_start_unchanged(line);
    assert(trim(line) == s);
    assert forall|i: int| 0 <= i < 15 implies ascii_lower_code(#[trigger] s.take(15)[i])
        == ascii_lower_code("authorization: "@[i]) by {
        assert(s.take(15)[i] == a[i]);
    }
    assert(s.skip(15) =~= "Basic "@ + token);
    assert(http_request_text(addr, token, body) =~= "POST / HTTP/1.1\r\nHost: "@ + addr + "\r\n"@
        + line + "Content-Type: application/json\r\nContent-Length: "@ + decimal_text(
        encode_utf8(body).len(),
    ) + "\r\nConnection: close\r\n\r\n"@ + body);
}

/// The digits of a number are not white space.
proof fn lemma_decimal_shape(n: nat)
    ensures
        decimal_text(n).len() > 0,
        forall|i: int|
            0 <= i < decimal_text(n).len() ==> !is_white_space(#[trigger] decimal_text(n)[i]),
{
    lemma_decimal_text(n);
    assert forall|i: int| 0 <= i < decimal_text(n).len() implies !is_white_space(
        #[trigger] decimal_text(n)[i],
    ) by {
        assert(is_digit(decimal_text(n)[i]));
    }
}

/// A `Content-Length` line as either side writes it, read back by the
/// other side's header reader, gives the length that was written.
proof fn lemma_length_line(n: nat)
    requires
        n <= usize::MAX,
    ensures
        ({
            let t = "Content-Length: "@ + decimal_text(n);
            &&& trim(t + "\r\n"@) == t
            &&& is_content_length_line(t)
            &&& !is_authorization_line(t)
            &&& content_length_of_line(t) == n
        }),
{
    reveal_strlit("Content-Length: ");
    reveal_strlit("content-length: ");
    reveal_strlit("authorization: ");
    reveal_strlit("\r\n");
    let p = "Content-Length: "@;
    let t = p + decimal_text(n);
    lemma_decimal_shape(n);
    assert(t.last() == decimal_text(n).last());
    lemma_trim_end_white_tail(t, "\r\n"@);
    assert(t[0] == 'C');
    lemma_trim_start_unchanged(t + "\r\n"@);
    assert forall|i: int| 0 <= i < 16 implies ascii_lower_code(#[trigger] t.take(16)[i])
        == ascii_lower_code("content-length: "@[i]) by {
        assert(t.take(16)[i] == p[i]);
    }
    assert(ascii_lower_code(t.take(15)[0]) != ascii_lower_code("authorization: "@[0]));
    assert(t.skip(16) =~= decimal_text(n));
    lemma_parse_decimal_text(n, usize::MAX as nat);
}

/// The client's request states the body's length in UTF-8 bytes on a line
/// of its own, and the server reads that length from it, in any state.
pub proof fn law_request_length_read_by_server(
    addr: Seq<char>,
    token: Seq<char>,
    body: Seq<char>,
    authorization: Option<Seq<char>>,
    length: nat,
)
    requires
        encode_utf8(body).len() <= usize::MAX,
    ensures
        ({
            let n = encode_utf8(body).len();
            let line = "Content-Length: "@ + decimal_text(n) + "\r\n"@;
            &&& http_request_text(addr, token, body) == "POST / HTTP/1.1\r\nHost: "@ + addr
                + "\r\nAuthorization: Basic "@ + token + "\r\nContent-Type: application/json\r\n"@
                + line + "Connection: close\r\n\r\n"@ + body
            &&& request_header_step(authorization, length, line) == Some((authorization, n))
        }),
{
    reveal_strlit("\r\nContent-Type: application/json\r\nContent-Length: ");
    reveal_strlit("\r\nContent-Type: application/json\r\n");
    reveal_strlit("Content-Length: ");
    reveal_strlit("\r\nConnection: close\r\n\r\n");
    reveal_strlit("\r\n");
    reveal_strlit("Connection: close\r\n\r\n");
    let n = encode_utf8(body).len();
    lemma_length_line(n);
    assert(http_request_text(addr, token, body) =~= "POST / HTTP/1.1\r\nHost: "@ + addr
        + "\r\nAuthorization: Basic "@ + token + "\r\nContent-Type: application/json\r\n"@ + (
    "Content-Length: "@ + decimal_text(n) + "\r\n"@) + "Connection: close\r\n\r\n"@ + body);
}

/// The server's `200 OK` answer begins with a status line that the client
/// accepts, and states the body's length in UTF-8 bytes on a line that the
/// client reads as that length.
pub proof fn law_answer_read_by_client(body: Seq<char>, length: nat)
    requires
        encode_utf8(body).len() <= usize::MAX,
    ensures
        ({
            let n = encode_utf8(body).len();
            let status = "HTTP/1.1 200 OK\r\n"@;
            let line = "Content-Length: "@ + decimal_text(n) + "\r\n"@;
            &&& ok_response_text(body) == status + "Content-Type: application/json\r\n"@ + line
                + "\r\n"@ + body
            &&& contains_text(status, "200"@)
            &&& answer_header_step(line, length) == Some(n)
        }),
{
    reveal_strlit("HTTP/1.1 200 OK\r\nContent-Type: application/json\r\nContent-Length: ");
    reveal_strlit("HTTP/1.1 200 OK\r\n");
    reveal_strlit("Content-Type: application/json\r\n");
    reveal_strlit("Content-Length: ");
    reveal_strlit("\r\n\r\n");
    reveal_strlit("\r\n");
    reveal_strlit("200");
    let n = encode_utf8(body).len();
    lemma_length_line(n);
    let status = "HTTP/1.1 200 OK\r\n"@;
    assert(status.subrange(9, 12) =~= "200"@);
    assert(status.subrange(9, 9 + "200"@.len() as int) == "200"@);
    assert(contains_text(status, "200"@));
    assert(ok_response_text(body) =~= status + "Content-Type: application/json\r\n"@ + (
    "Content-Length: "@ + decimal_text(n) + "\r\n"@) + "\r\n"@ + body);
}

/// A text without the character `2` does not contain `200`.
proof fn lemma_no_200(s: Seq<char>)
    requires
        forall|i: int| 0 <= i < s.len() ==> #[trigger] s[i] != '2',
    ensures
        !contains_text(s, "200"@),
{
    reveal_strlit("200");
    assert forall|i: int| 0 <= i && i + 3 <= s.len() implies #[trigger] s.subrange(i, i + 3)
        != "200"@ by {
        assert(s.subrange(i, i + 3)[0] == s[i]);
    }
}

/// The client turns away the server's refusals: the status line of a `401`
/// or a `400` answer fails its check, with the trimmed line in the error.
pub proof fn law_refusals_rejected_by_client()
    ensures
        unauthorized_text() == "HTTP/1.1 401 Unauthorized\r\n"@
            + "WWW-Authenticate: Basic realm=\"zecwallet\"\r\nContent-Length: 0\r\n\r\n"@,
        !contains_text("HTTP/1.1 401 Unauthorized\r\n"@, "200"@),
        status_error_text("HTTP/1.1 401 Unauthorized\r\n"@) == "Server returned: "@
            + "HTTP/1.1 401 Unauthorized"@,
        bad_request_text() == "HTTP/1.1 400 Bad Request\r\n"@ + "Content-Length: 0\r\n\r\n"@,
        !contains_text("HTTP/1.1 400 Bad Request\r\n"@, "200"@),
        status_error_text("HTTP/1.1 400 Bad Request\r\n"@) == "Server returned: "@
            + "HTTP/1.1 400 Bad Request"@,
{
    reveal_strlit("HTTP/1.1 401 Unauthorized\r\nWWW-Authenticate: Basic realm=\"zecwallet\"\r\nContent-Length: 0\r\n\r\n");
    reveal_strlit("HTTP/1.1 401 Unauthorized\r\n");
    reveal_strlit("WWW-Authenticate: Basic realm=\"zecwallet\"\r\nContent-Length: 0\r\n\r\n");
    reveal_strlit("HTTP/1.1 401 Unauthorized");
    reveal_strlit("HTTP/1.1 400 Bad Request\r\nContent-Length: 0\r\n\r\n");
    reveal_strlit("HTTP/1.1 400 Bad Request\r\n");
    reveal_strlit("Content-Length: 0\r\n\r\n");
    reveal_strlit("HTTP/1.1 400 Bad Request");
    reveal_strlit("\r\n");
    let u = "HTTP/1.1 401 Unauthorized"@;
    let b = "HTTP/1.1 400 Bad Request"@;
    assert(unauthorized_text() =~= "HTTP/1.1 401 Unauthorized\r\n"@
        + "WWW-Authenticate: Basic realm=\"zecwallet\"\r\nContent-Length: 0\r\n\r\n"@);
    assert(bad_request_text() =~= "HTTP/1.1 400 Bad Request\r\n"@ + "Content-Length: 0\r\n\r\n"@);
    lemma_no_200("HTTP/1.1 401 Unauthorized\r\n"@);
    lemma_no_200("HTTP/1.1 400 Bad Request\r\n"@);
    assert("HTTP/1.1 401 Unauthorized\r\n"@ =~= u + "\r\n"@);
    assert("HTTP/1.1 400 Bad Request\r\n"@ =~= b + "\r\n"@);
    lemma_trim_end_white_tail(u, "\r\n"@);
    lemma_trim_end_white_tail(b, "\r\n"@);
    lemma_trim_start_unchanged(u + "\r\n"@);
    lemma_trim_start_unchanged(b + "\r\n"@);
}

/// Header names are read without regard to ASCII case: two lines that
/// differ only in the case of the header name (the name and its colon, at
/// most 15 characters), after the same white space and before the same rest
/// of the line, line ending included, are read alike by the server and by
/// the client.
pub proof fn law_header_names_ignore_case(
    lead: Seq<char>,
    n1: Seq<char>,
    n2: Seq<char>,
    rest: Seq<char>,
    authorization: Option<Seq<char>>,
    length: nat,
)
    requires
        forall|i: int| 0 <= i < lead.len() ==> is_white_space(#[trigger] lead[i]),
        eq_ignore_ascii_case(n1, n2),
        0 < n1.len() <= 15,
        !is_white_space(n1[0]),
    ensures
        request_header_step(authorization, length, lead + n1 + rest) == request_header_step(
            authorization,
            length,
            lead + n2 + rest,
        ),
        answer_header_step(lead + n1 + rest, length) == answer_header_step(lead + n2 + rest, length),
{
    let x1 = n1 + rest;
    let x2 = n2 + rest;
    assert(ascii_lower_code(n1[0]) == ascii_lower_code(n2[0]));
    assert(x1[0] == n1[0]);
    assert(x2[0] == n2[0]);
    assert(lead + n1 + rest =~= lead + x1);
    assert(lead + n2 + rest =~= lead + x2);
    lemma_trim_start_white_head(lead, x1);
    lemma_trim_start_white_head(lead, x2);
    assert(n1.len() == n2.len());
    assert forall|i: int| 0 <= i < x1.len() implies ascii_lower_code(#[trigger] x1[i])
        == ascii_lower_code(x2[i]) by {
        if i < n1.len() {
            assert(x1[i] == n1[i]);
            assert(x2[i] == n2[i]);
        } else {
            assert(x1[i] == rest[i - n1.len()]);
            assert(x2[i] == rest[i - n1.len()]);
        }
    }
    assert(eq_ignore_ascii_case(x1, x2));
    lemma_white_space_aligned(x1, x2);
    lemma_trim_end_aligned(x1, x2);
    let t1 = trim(lead + x1);
    let t2 = trim(lead + x2);
    assert(t1 == trim_end(x1));
    assert(t2 == trim_end(x2));
    let k = t1.len() as int;
    assert forall|i: int| 0 <= i < t1.len() implies ascii_lower_code(#[trigger] t1[i])
        == ascii_lower_code(t2[i]) by {
        assert(t1[i] == x1[i]);
        assert(t2[i] == x2[i]);
    }
    assert(eq_ignore_ascii_case(t1, t2));
    lemma_prefix_ignore_case(t1, t2, "authorization: "@);
    lemma_prefix_ignore_case(t1, t2, "content-length: "@);
    reveal_strlit("authorization: ");
    reveal_strlit("content-length: ");
    assert forall|i: int| 15 <= i < t1.len() implies #[trigger] t1[i] == t2[i] by {
        assert(t1[i] == x1[i]);
        assert(t2[i] == x2[i]);
        assert(x1[i] == rest[i - n1.len()]);
        assert(x2[i] == rest[i - n1.len()]);
    }
    if t1.len() >= 15 {
        assert(t1.skip(15) =~= t2.skip(15));
    }
    if t1.len() >= 16 {
        assert(t1.skip(16) =~= t2.skip(16));
    }
}

/// Other credentials are refused: the authorization that the client sends
/// for a user and password other than the server's (`user:password` texts
/// differ), read by the server in any state, is not the one it expects, so
/// the request gets the `401` answer.
pub proof fn law_other_credentials_refused(
    user: Seq<char>,
    password: Seq<char>,
    other_user: Seq<char>,
    other_password: Seq<char>,
    authorization: Option<Seq<char>>,
    length: nat,
)
    requires
        credentials_text(other_user, other_password) != credentials_text(user, password),
    ensures
        ({
            let line = "Authorization: Basic "@ + basic_token(other_user, other_password) + "\r\n"@;
            &&& request_header_step(authorization, length, line) == Some(
                (Some(expected_authorization_text(other_user, other_password)), length),
            )
            &&& expected_authorization_text(other_user, other_password)
                != expected_authorization_text(user, password)
        }),
{
    law_client_credentials_admitted(Seq::empty(), other_user, other_password, Seq::empty(), authorization, length);
    let a = credentials_text(user, password);
    let b = credentials_text(other_user, other_password);
    if expected_authorization_text(other_user, other_password) == expected_authorization_text(
        user,
        password,
    ) {
        assert(basic_token(other_user, other_password) =~= expected_authorization_text(
            other_user,
            other_password,
        ).skip(6)) by {
            reveal_strlit("Basic ");
        }
        assert(basic_token(user, password) =~= expected_authorization_text(user, password).skip(6))
            by {
            reveal_strlit("Basic ");
        }
        lemma_base64_injective(encode_utf8(b), encode_utf8(a));
        encode_utf8_decode_utf8(a);
        encode_utf8_decode_utf8(b);
    }
}

} // verus!
