//! What holds of following bytes into escape sequences.

use vstd::prelude::*;

use crate::sequence::Sequence;

verus! {

/// The byte is a hexadecimal digit or a plus sign.
pub open spec fn is_colour_byte(byte: u8) -> bool {
    ||| 48 <= byte <= 57
    ||| 65 <= byte <= 70
    ||| 97 <= byte <= 102
    ||| byte == 43
}

/// The byte stands in a parameter of a command, and does not end it.
pub open spec fn is_parameter_byte(byte: u8) -> bool {
    byte >= 0x20 && byte != 0x3b
}

proof fn lemma_step(sequence: Sequence, bytes: Seq<u8>, byte: u8)
    ensures
        sequence.after(bytes.push(byte)) == sequence.after(bytes).step(byte),
        sequence.has_room(bytes.push(byte)) == (sequence.has_room(bytes) && !sequence.after(
            bytes.push(byte),
        ).overflows()),
        sequence.asks_update(bytes.push(byte)) == (sequence.asks_update(bytes) || sequence.after(
            bytes,
        ).completes_update(byte)),
{
    assert(bytes.push(byte).drop_last() =~= bytes);
}

/// An escape begins a sequence wherever it comes, and a cancel or substitute ends one.
pub proof fn law_escapes_begin_and_cancels_end_a_sequence(
    sequence: Sequence,
    byte: u8,
    next: Sequence,
)
    requires
        call_ensures(Sequence::next, (sequence, byte), next),
    ensures
        byte == 0x1b ==> next is Escape,
        byte == 0x18 || byte == 0x1a ==> next is Outside,
        sequence is Outside && byte != 0x1b ==> next is Outside,
        (sequence is Command || sequence is Colour) && byte == 0x07 ==> next is Outside,
        (sequence is Command || sequence is Colour) && byte == 0x3b ==> next
            == (Sequence::Command { start: true }),
        sequence is Escape && byte == 0x5b ==> next is Control,
        sequence is Escape && byte == 0x5d ==> next == (Sequence::Command { start: true }),
{
}

/// The numbers of private modes are read digit by digit, as far as they can be counted;
/// a separator begins the next one, and is told whether the last was the synchronized
/// update. Control bytes are passed over, and any other byte ends the sequence.
pub proof fn law_private_modes_are_read_digit_by_digit(
    value: u16,
    asked: bool,
    byte: u8,
    next: Sequence,
)
    requires
        call_ensures(Sequence::next, (Sequence::Private { value, asked }, byte), next),
        byte != 0x1b && byte != 0x18 && byte != 0x1a,
    ensures
        48 <= byte <= 57 && value * 10 + (byte - 48) <= 65535 ==> (
        next matches Sequence::Private { value: v, asked: a } && v == value * 10 + (byte - 48) && a
            == asked),
        48 <= byte <= 57 && value * 10 + (byte - 48) > 65535 ==> next == (Sequence::Private {
            value: 65535,
            asked,
        }),
        byte == 58 || byte == 59 ==> next == (Sequence::Private {
            value: 0,
            asked: asked || value == 2026,
        }),
        byte < 32 || byte >= 127 ==> next == (Sequence::Private { value, asked }),
        32 <= byte < 127 && !(48 <= byte <= 59) ==> next is Outside,
{
}

/// Bytes without an escape lead nowhere from outside a sequence.
pub proof fn law_plain_bytes_begin_no_sequence(bytes: &[u8], read: Option<Sequence>)
    requires
        call_ensures(Sequence::read, (Sequence::Outside, bytes), read),
        !bytes@.contains(0x1b),
    ensures
        read == Some(Sequence::Outside),
        !Sequence::Outside.asks_update(bytes@),
{
    lemma_plain(bytes@);
}

proof fn lemma_plain(bytes: Seq<u8>)
    requires
        !bytes.contains(0x1b),
    ensures
        Sequence::Outside.after(bytes) is Outside,
        Sequence::Outside.has_room(bytes),
        !Sequence::Outside.asks_update(bytes),
    decreases bytes.len(),
{
    if bytes.len() > 0 {
        let less = bytes.drop_last();
        assert(!less.contains(0x1b)) by {
            if less.contains(0x1b) {
                let i = choose|i: int| 0 <= i < less.len() && less[i] == 0x1b;
                assert(bytes[i] == 0x1b);
            }
        }
        lemma_plain(less);
        assert(bytes[bytes.len() - 1] != 0x1b);
    }
}

/// Bytes read one piece after the other lead where they lead read together.
pub proof fn law_pieces_lead_where_the_whole_leads(
    sequence: Sequence,
    a: &[u8],
    b: &[u8],
    whole: &[u8],
    first: Option<Sequence>,
    second: Option<Sequence>,
    together: Option<Sequence>,
)
    requires
        whole@ == a@ + b@,
        call_ensures(Sequence::read, (sequence, a), first),
        call_ensures(Sequence::read, (sequence, whole), together),
        first is Some ==> call_ensures(Sequence::read, (first->0, b), second),
    ensures
        first is None ==> together is None,
        first is Some ==> together == second,
{
    sequence.lemma_one_after_another(a@, b@);
    lemma_room(sequence, a@, b@);
}

proof fn lemma_room(sequence: Sequence, a: Seq<u8>, b: Seq<u8>)
    ensures
        sequence.has_room(a + b) == (sequence.has_room(a) && sequence.after(a).has_room(b)),
    decreases b.len(),
{
    if b.len() == 0 {
        assert(a + b =~= a);
    } else {
        assert((a + b).drop_last() =~= a + b.drop_last());
        lemma_room(sequence, a, b.drop_last());
        sequence.lemma_one_after_another(a, b);
    }
}

/// The sequence that begins a synchronized update is noticed, whatever comes before.
pub proof fn law_synchronized_updates_are_noticed(sequence: Sequence, ahead: Seq<u8>)
    ensures
        sequence.asks_update(ahead + seq![0x1bu8, 0x5b, 0x3f, 0x32, 0x30, 0x32, 0x36, 0x68]),
{
    let begin = seq![0x1bu8, 0x5b, 0x3f, 0x32, 0x30, 0x32, 0x36, 0x68];
    let at = sequence.after(ahead);
    sequence.lemma_one_after_another(ahead, begin);
    let none = Seq::<u8>::empty();
    lemma_step(at, none, 0x1b);
    lemma_step(at, none.push(0x1b), 0x5b);
    lemma_step(at, none.push(0x1b).push(0x5b), 0x3f);
    lemma_step(at, none.push(0x1b).push(0x5b).push(0x3f), 0x32);
    lemma_step(at, none.push(0x1b).push(0x5b).push(0x3f).push(0x32), 0x30);
    lemma_step(at, none.push(0x1b).push(0x5b).push(0x3f).push(0x32).push(0x30), 0x32);
    lemma_step(at, none.push(0x1b).push(0x5b).push(0x3f).push(0x32).push(0x30).push(0x32), 0x36);
    let mode = none.push(0x1b).push(0x5b).push(0x3f).push(0x32).push(0x30).push(0x32).push(0x36);
    assert(at.after(mode) == (Sequence::Private { value: 2026, asked: false }));
    lemma_step(at, mode, 0x68);
    assert(mode.push(0x68) =~= begin);
}

proof fn lemma_colour(body: Seq<u8>, digits: int)
    requires
        0 <= digits <= body.len(),
        forall|i: int| 0 <= i < digits ==> is_colour_byte(#[trigger] body[i]),
        forall|i: int| digits <= i < body.len() ==> is_parameter_byte(#[trigger] body[i]),
        digits < body.len() ==> !is_colour_byte(body[digits]),
    ensures
        ({
            let start = Sequence::Colour { digits: 0, length: 0, plain: true };
            &&& start.after(body) == (Sequence::Colour {
                digits: (if digits < 9 {
                    digits
                } else {
                    9
                }) as u8,
                length: (if body.len() < 23 {
                    body.len() as int
                } else {
                    23
                }) as u8,
                plain: digits == body.len(),
            })
            &&& start.has_room(body) == (digits < 9 || body.len() < 23)
        }),
    decreases body.len(),
{
    let start = Sequence::Colour { digits: 0, length: 0, plain: true };
    if body.len() > 0 {
        let less = body.drop_last();
        let last = body[body.len() - 1];
        if digits == body.len() {
            lemma_colour(less, digits - 1);
        } else {
            lemma_colour(less, digits);
            assert(is_parameter_byte(body[body.len() - 1]));
        }
        lemma_step(start, less, last);
        assert(less.push(last) =~= body);
    }
}

/// A colour in a command for the operating system is refused if it begins with nine
/// hexadecimal digits or more and has twenty-three bytes or more, and only then.
pub proof fn law_long_colours_are_refused(bytes: &[u8], digits: int, read: Option<Sequence>)
    requires
        call_ensures(Sequence::read, (Sequence::Command { start: true }, bytes), read),
        bytes@.len() > 0,
        bytes@[0] == 0x23,
        0 <= digits < bytes@.len(),
        forall|i: int| 1 <= i <= digits ==> is_colour_byte(#[trigger] bytes@[i]),
        forall|i: int| digits < i < bytes@.len() ==> is_parameter_byte(#[trigger] bytes@[i]),
        digits + 1 < bytes@.len() ==> !is_colour_byte(bytes@[digits + 1]),
    ensures
        read is None <==> digits >= 9 && bytes@.len() - 1 >= 23,
{
    let start = Sequence::Command { start: true };
    let sign = Seq::<u8>::empty().push(0x23);
    let body = bytes@.skip(1);
    assert forall|i: int| 0 <= i < digits implies is_colour_byte(#[trigger] body[i]) by {
        assert(body[i] == bytes@[i + 1]);
    }
    assert forall|i: int| digits <= i < body.len() implies is_parameter_byte(
        #[trigger] body[i],
    ) by {
        assert(body[i] == bytes@[i + 1]);
    }
    lemma_colour(body, digits);
    lemma_step(start, Seq::empty(), 0x23);
    lemma_room(start, sign, body);
    assert(sign + body =~= bytes@);
}

} // verus!
