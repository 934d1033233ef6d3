//! What is found where, and in which order texts stand.

use vstd::prelude::*;

use crate::config::headers::{has_header, in_name_order, value_of};
use crate::config::parts::HeaderKey;
use crate::hysteria2::auth::UserMap;
use crate::hysteria2::defrag::{holds, place_of, Partial};
use crate::hysteria2::sessions::{has_session, session_place, SessionModel};
use crate::order::text_before;
use crate::snell::users::UserTable;
use crate::text::{decimal_text, digit_char};
use crate::web::is_token_byte;

verus! {

/// A password is known if and only if it is that of an entry, and then its name
/// is that of the entry.
pub proof fn passwords_are_those_of_entries(map: UserMap, password: Seq<char>)
    requires
        map.wf(),
    ensures
        map.has(password) <==> map@.map_values(|entry: (Seq<char>, Option<Seq<char>>)| entry.0).contains(
            password,
        ),
        map.has(password) ==> map@.contains((password, map.name_of(password))),
        forall|i: int|
            0 <= i < map@.len() && (#[trigger] map@[i]).0 == password ==> map.has(password)
                && map.name_of(password) == map@[i].1,
{
    let keys = map@.map_values(|entry: (Seq<char>, Option<Seq<char>>)| entry.0);
    if map.has(password) {
        let i = choose|i: int| 0 <= i < map@.len() && (#[trigger] map@[i]).0 == password;
        assert(keys[i] == password);
        assert(map@[i] == (password, map.name_of(password)));
    }
    if keys.contains(password) {
        let i = choose|i: int| 0 <= i < keys.len() && keys[i] == password;
        assert(map@[i].0 == password);
    }
    assert forall|i: int| 0 <= i < map@.len() && (#[trigger] map@[i]).0 == password implies map.has(
        password,
    ) && map.name_of(password) == map@[i].1 by {
        let j = choose|j: int| 0 <= j < map@.len() && (#[trigger] map@[j]).0 == password;
        assert(map@[j].0 == password);
        if i < j {
            assert(map@[i].0 != map@[j].0);
        }
        if j < i {
            assert(map@[j].0 != map@[i].0);
        }
    }
}

/// A key is known if and only if it is that of an entry, and then its name is
/// that of the entry.
pub proof fn keys_are_those_of_entries(table: UserTable, key: Seq<u8>)
    requires
        table.wf(),
    ensures
        table.name_of(key) is Some <==> table@.map_values(|entry: (Seq<u8>, Seq<char>)| entry.0).contains(
            key,
        ),
        table.name_of(key) is Some <==> table.has_key(key),
        forall|i: int|
            0 <= i < table@.len() && (#[trigger] table@[i]).0 == key ==> table.name_of(key) == Some(
                table@[i].1,
            ),
{
    let keys = table@.map_values(|entry: (Seq<u8>, Seq<char>)| entry.0);
    if table.has_key(key) {
        let i = choose|i: int| 0 <= i < table@.len() && (#[trigger] table@[i]).0 == key;
        assert(keys[i] == key);
    }
    if keys.contains(key) {
        let i = choose|i: int| 0 <= i < keys.len() && keys[i] == key;
        assert(table@[i].0 == key);
    }
    assert forall|i: int| 0 <= i < table@.len() && (#[trigger] table@[i]).0 == key implies table.name_of(
        key,
    ) == Some(table@[i].1) by {
        let j = choose|j: int| 0 <= j < table@.len() && (#[trigger] table@[j]).0 == key;
        assert(table@[j].0 == key);
        if i < j {
            assert(table@[i].0 != table@[j].0);
        }
        if j < i {
            assert(table@[j].0 != table@[i].0);
        }
    }
}

/// A session, and a datagram that is on its way, is there if and only if it
/// stands at some place, which is then found.
pub proof fn places_are_found(
    sessions: Seq<SessionModel>,
    session_id: u32,
    partials: Seq<Partial>,
    pkt_id: u16,
)
    ensures
        has_session(sessions, session_id) <==> sessions.map_values(
            |session: SessionModel| session.session_id,
        ).contains(session_id),
        has_session(sessions, session_id) ==> {
            let place = session_place(sessions, session_id);
            0 <= place < sessions.len() && sessions[place].session_id == session_id
        },
        holds(partials, pkt_id) <==> partials.map_values(|partial: Partial| partial.pkt_id).contains(
            pkt_id,
        ),
        holds(partials, pkt_id) ==> {
            let place = place_of(partials, pkt_id);
            0 <= place < partials.len() && partials[place].pkt_id == pkt_id
        },
{
    let ids = sessions.map_values(|session: SessionModel| session.session_id);
    if has_session(sessions, session_id) {
        let i = choose|i: int|
            0 <= i < sessions.len() && (#[trigger] sessions[i]).session_id == session_id;
        assert(ids[i] == session_id);
    }
    if ids.contains(session_id) {
        let i = choose|i: int| 0 <= i < ids.len() && ids[i] == session_id;
        assert(sessions[i].session_id == session_id);
    }
    let numbers = partials.map_values(|partial: Partial| partial.pkt_id);
    if holds(partials, pkt_id) {
        let i = choose|i: int| 0 <= i < partials.len() && (#[trigger] partials[i]).pkt_id == pkt_id;
        assert(numbers[i] == pkt_id);
    }
    if numbers.contains(pkt_id) {
        let i = choose|i: int| 0 <= i < numbers.len() && numbers[i] == pkt_id;
        assert(partials[i].pkt_id == pkt_id);
    }
}

/// A header has a value if and only if one of its name is there, and it is the
/// value of that one.
pub proof fn values_are_those_of_headers(headers: Seq<HeaderKey>, name: Seq<char>)
    requires
        in_name_order(headers),
    ensures
        value_of(headers, name) is Some <==> headers.map_values(|header: HeaderKey| header.name).contains(
            name,
        ),
        forall|i: int|
            0 <= i < headers.len() && (#[trigger] headers[i]).name == name ==> value_of(
                headers,
                name,
            ) == Some(headers[i].value),
        forall|i: int, j: int|
            0 <= i < headers.len() && 0 <= j < headers.len() && i != j ==> (
            #[trigger] headers[i]).name != (#[trigger] headers[j]).name,
{
    assert forall|i: int, j: int| 0 <= i < j < headers.len() implies (#[trigger] headers[i]).name
        != (#[trigger] headers[j]).name by {
        crate::order::text_order_is_total(headers[i].name, headers[j].name);
    }
    let names = headers.map_values(|header: HeaderKey| header.name);
    if has_header(headers, name) {
        let i = choose|i: int| 0 <= i < headers.len() && (#[trigger] headers[i]).name == name;
        assert(names[i] == name);
    }
    if names.contains(name) {
        let i = choose|i: int| 0 <= i < names.len() && names[i] == name;
        assert(headers[i].name == name);
    }
    assert forall|i: int| 0 <= i < headers.len() && (#[trigger] headers[i]).name == name implies value_of(
        headers,
        name,
    ) == Some(headers[i].value) by {
        let j = choose|j: int| 0 <= j < headers.len() && (#[trigger] headers[j]).name == name;
        assert(headers[j].name == name);
    }
}

/// Texts are ordered by the first place at which they differ; a text comes
/// before every longer one that starts with it, and after none.
pub proof fn the_first_difference_decides(front: Seq<char>, a: char, b: char, x: Seq<char>, y: Seq<char>)
    ensures
        a != b ==> (text_before(front + seq![a] + x, front + seq![b] + y) <==> (a as u32) < (
        b as u32)),
        text_before(front, front + seq![a] + x),
        !text_before(front + seq![a] + x, front),
        !text_before(front, front),
    decreases front.len(),
{
    let one = front + seq![a] + x;
    let two = front + seq![b] + y;
    if front.len() > 0 {
        the_first_difference_decides(front.drop_first(), a, b, x, y);
        assert(one.drop_first() =~= front.drop_first() + seq![a] + x);
        assert(two.drop_first() =~= front.drop_first() + seq![b] + y);
    }
}

/// A decimal number ends in the digit of its units, behind the number of its
/// tens.
pub proof fn digits_stand_for_their_places(value: nat, digit: nat)
    requires
        digit < 10,
    ensures
        decimal_text(digit).len() == 1,
        decimal_text(digit)[0] as u32 == 48 + digit,
        value > 0 ==> decimal_text(10 * value + digit) == decimal_text(value) + decimal_text(digit),
{
    if value > 0 {
        let whole = 10 * value + digit;
        assert(whole / 10 == value && whole % 10 == digit);
        assert(decimal_text(digit) =~= seq![digit_char(digit as int)]);
        assert(decimal_text(whole) =~= decimal_text(value) + decimal_text(digit));
    }
}

/// The name of a header is made of letters, digits and fifteen marks.
pub proof fn header_names_are_tokens(byte: u8)
    ensures
        is_token_byte(byte) <==> {
            let c = byte as char;
            ||| 'a' <= c <= 'z'
            ||| 'A' <= c <= 'Z'
            ||| '0' <= c <= '9'
            ||| seq![
                '!',
                '#',
                '$',
                '%',
                '&',
                '\'',
                '*',
                '+',
                '-',
                '.',
                '^',
                '_',
                '`',
                '|',
                '~',
            ].contains(c)
        },
{
    let c = byte as char;
    let marks = seq![
        '!',
        '#',
        '$',
        '%',
        '&',
        '\'',
        '*',
        '+',
        '-',
        '.',
        '^',
        '_',
        '`',
        '|',
        '~',
    ];
    if marks.contains(c) {
        let i = choose|i: int| 0 <= i < marks.len() && marks[i] == c;
        assert(0 <= i < 15);
    }
    if byte == 0x21 {
        assert(marks[0] == c);
    } else if 0x23 <= byte <= 0x27 {
        assert(marks[byte - 0x22] == c);
    } else if byte == 0x2a || byte == 0x2b {
        assert(marks[byte - 0x24] == c);
    } else if byte == 0x2d || byte == 0x2e {
        assert(marks[byte - 0x25] == c);
    } else if 0x5e <= byte <= 0x60 {
        assert(marks[byte - 0x54] == c);
    } else if byte == 0x7c {
        assert(marks[13] == c);
    } else if byte == 0x7e {
        assert(marks[14] == c);
    }
}

} // verus!
