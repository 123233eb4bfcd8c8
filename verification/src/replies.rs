//! What a reply to a call is taken for: its status line decides, and what a channel
//! makes of it follows.

use crate::dialogue::{crlf, law_lines_are_read_back, law_words_of_a_line, one_line, text_of};
use crate::sip::{reply_of, ReplyView};
use crate::text::{
    begins_with, decimal, digit_char, has, law_decimal_round_trip, law_found_at_the_first_place,
    lines_of, numeral, stands_at, words,
};
use vstd::prelude::*;
use vstd::string::*;

verus! {

/// The status line of a reply.
pub open spec fn status_line(code: nat, reason: Seq<char>) -> Seq<char> {
    "SIP/2.0 "@ + decimal(code) + " "@ + reason
}

/// A reply: its status line and what comes after it.
pub open spec fn reply_with(code: nat, reason: Seq<char>, rest: Seq<char>) -> Seq<char> {
    status_line(code, reason) + "\r\n"@ + rest
}

proof fn lemma_status_line(code: nat, reason: Seq<char>, rest: Seq<char>)
    requires
        one_line(reason),
    ensures
        lines_of(reply_with(code, reason, rest)).len() > 0,
        lines_of(reply_with(code, reason, rest))[0] == status_line(code, reason),
        begins_with(status_line(code, reason), "SIP/2.0 "@),
        words(status_line(code, reason)).len() >= 2,
        words(status_line(code, reason))[1] == decimal(code),
{
    let line = status_line(code, reason);
    reveal_strlit("SIP/2.0 ");
    reveal_strlit("\r\n");
    reveal_strlit(" ");
    law_words_of_a_line(code, reason);
    assert(line =~= "SIP/2.0 "@ + (decimal(code) + seq![' '] + reason));
    assert(line.subrange(0, 8) =~= "SIP/2.0 "@);
    let ls = seq![line];
    assert(ls.drop_last() =~= Seq::<Seq<char>>::empty());
    assert(text_of(ls.drop_last()) =~= Seq::<char>::empty());
    assert(text_of(ls) =~= line + crlf());
    assert(reply_with(code, reason, rest) =~= text_of(ls) + rest);
    law_lines_are_read_back(ls, rest);
}

/// A status of 300 or more is a failure and its line is told; a status below is never
/// a failure, nor is a message that does not begin with a status line. A reply that
/// also holds the text of a first or a ringing reply is taken for that.
pub proof fn law_status_tells_failure(code: nat, reason: Seq<char>, rest: Seq<char>)
    requires
        one_line(reason),
        code <= 0xffff_ffff,
    ensures
        ({
            let msg = reply_with(code, reason, rest);
            &&& 300 <= code && !(has(msg, "SIP/2.0 100"@) || has(msg, "SIP/2.0 180"@))
                ==> reply_of(msg) == (ReplyView::Failed { status: status_line(code, reason) })
            &&& code < 300 ==> !(reply_of(msg) is Failed)
        }),
{
    lemma_status_line(code, reason, rest);
    law_decimal_round_trip(code, 0xffff_ffff);
}

/// A message without a status line tells of no failure.
pub proof fn law_no_status_no_failure(line: Seq<char>, rest: Seq<char>)
    requires
        one_line(line),
        !begins_with(line, "SIP/2.0 "@),
    ensures
        !(reply_of(line + "\r\n"@ + rest) is Failed),
{
    reveal_strlit("\r\n");
    let ls = seq![line];
    assert(ls.drop_last() =~= Seq::<Seq<char>>::empty());
    assert(text_of(ls.drop_last()) =~= Seq::<char>::empty());
    assert(text_of(ls) =~= line + crlf());
    assert(line + "\r\n"@ + rest =~= text_of(ls) + rest);
    law_lines_are_read_back(ls, rest);
}

/// The first three characters behind the protocol's name decide, in a message that
/// names the protocol at its beginning alone.
proof fn lemma_told_by_the_beginning(msg: Seq<char>, told: Seq<char>)
    requires
        begins_with(told, "SIP/2.0 "@),
        forall|i: int| 0 < i ==> !stands_at(msg, "SIP/2.0 "@, i),
    ensures
        has(msg, told) <==> begins_with(msg, told),
{
    law_found_at_the_first_place(msg, told);
    reveal_strlit("SIP/2.0 ");
    if has(msg, told) {
        let i = choose|i: int| stands_at(msg, told, i);
        assert(msg.subrange(i, i + 8) =~= told.subrange(0, 8)) by {
            assert(msg.subrange(i, i + told.len()).subrange(0, 8) =~= msg.subrange(i, i + 8));
        }
        assert(stands_at(msg, "SIP/2.0 "@, i));
        assert(i == 0);
    }
}

proof fn lemma_three_digits(code: nat)
    requires
        100 <= code <= 999,
    ensures
        decimal(code).len() == 3,
        decimal(code) == seq!['1', '0', '0'] <==> code == 100,
        decimal(code) == seq!['1', '8', '0'] <==> code == 180,
        decimal(code) == seq!['2', '0', '0'] <==> code == 200,
{
    reveal_with_fuel(numeral, 4);
    let d = decimal(code);
    assert(d =~= seq![
        digit_char(code / 100),
        digit_char(code / 10 % 10),
        digit_char(code % 10),
    ]);
    law_decimal_round_trip(code, 999);
    law_decimal_round_trip(100, 999);
    law_decimal_round_trip(180, 999);
    law_decimal_round_trip(200, 999);
    assert(decimal(100) =~= seq!['1', '0', '0']);
    assert(decimal(180) =~= seq!['1', '8', '0']);
    assert(decimal(200) =~= seq!['2', '0', '0']);
}

/// The status of a reply that names the protocol once, in its first line, decides
/// what it is taken for: 100 for a first reply, 180 for ringing, 200 for an answer and
/// anything from 300 on for a failure; no other is any of these.
#[verifier::rlimit(40)]
#[verifier::spinoff_prover]
pub proof fn law_status_decides(code: nat, reason: Seq<char>, rest: Seq<char>)
    requires
        one_line(reason),
        100 <= code <= 999,
        forall|i: int| 0 < i ==> !stands_at(reply_with(code, reason, rest), "SIP/2.0 "@, i),
    ensures
        ({
            let told = reply_of(reply_with(code, reason, rest));
            &&& told is Trying <==> code == 100
            &&& told is Ringing <==> code == 180
            &&& told is Answered <==> code == 200
            &&& told is Failed <==> code >= 300
            &&& told is Failed ==> told->status == status_line(code, reason)
        }),
{
    let msg = reply_with(code, reason, rest);
    let d = decimal(code);
    lemma_status_line(code, reason, rest);
    law_decimal_round_trip(code, 0xffff_ffff);
    lemma_three_digits(code);
    reveal_strlit("SIP/2.0 ");
    reveal_strlit("SIP/2.0 100");
    reveal_strlit("SIP/2.0 180");
    reveal_strlit("SIP/2.0 200");
    reveal_strlit(" ");
    reveal_strlit("\r\n");
    assert("SIP/2.0 100"@ =~= "SIP/2.0 "@ + seq!['1', '0', '0']);
    assert("SIP/2.0 180"@ =~= "SIP/2.0 "@ + seq!['1', '8', '0']);
    assert("SIP/2.0 200"@ =~= "SIP/2.0 "@ + seq!['2', '0', '0']);
    assert(msg.subrange(0, 11) =~= "SIP/2.0 "@ + d);
    assert(("SIP/2.0 "@ + d).subrange(8, 11) =~= d);
    assert("SIP/2.0 100"@.subrange(8, 11) =~= seq!['1', '0', '0']);
    assert("SIP/2.0 180"@.subrange(8, 11) =~= seq!['1', '8', '0']);
    assert("SIP/2.0 200"@.subrange(8, 11) =~= seq!['2', '0', '0']);
    assert("SIP/2.0 100"@.subrange(0, 8) =~= "SIP/2.0 "@);
    assert("SIP/2.0 180"@.subrange(0, 8) =~= "SIP/2.0 "@);
    assert("SIP/2.0 200"@.subrange(0, 8) =~= "SIP/2.0 "@);
    lemma_told_by_the_beginning(msg, "SIP/2.0 100"@);
    lemma_told_by_the_beginning(msg, "SIP/2.0 180"@);
    lemma_told_by_the_beginning(msg, "SIP/2.0 200"@);
}

} // verus!
