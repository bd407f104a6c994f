//! The CSV rows in which telemetry is recorded.

use vstd::prelude::*;

use crate::payload::Payload;

verus! {

/// Capacity of the buffer in which a row is put together.
pub const LINE_CAPACITY: usize = 256;

/// No row is longer than this.
pub const MAX_ROW_LEN: usize = 140;

pub const COMMA: u8 = 0x2c;

pub const MINUS: u8 = 0x2d;

pub const ZERO: u8 = 0x30;

pub const NEWLINE: u8 = 0x0a;

/// The string with fixed capacity, `heapless::String`, in which a row is put together.
#[verifier::external_type_specification]
#[verifier::external_body]
pub struct ExHeaplessString<const N: usize>(heapless::String<N>);

/// The bytes that a `heapless::String` of this capacity holds, in order.
pub uninterp spec fn text_of(line: heapless::String<256>) -> Seq<u8>;

/// An empty line, made with `heapless::String::new`.
///
/// Believed of it: the new string holds no bytes.
#[verifier::external_body]
fn new_line() -> (line: heapless::String<256>)
    ensures
        text_of(line) == Seq::<u8>::empty(),
{
    heapless::String::new()
}

/// Appends an ASCII character with `heapless::String::push` and says whether there was room.
///
/// Believed of it: an ASCII character takes one byte; it is appended if the string holds fewer
/// bytes than its capacity, and otherwise the string stays as it is.
#[verifier::external_body]
fn push_ascii(line: &mut heapless::String<256>, letter: u8) -> (pushed: bool)
    requires
        letter < 128,
    ensures
        pushed == (text_of(*old(line)).len() < LINE_CAPACITY),
        text_of(*final(line)) == (if text_of(*old(line)).len() < LINE_CAPACITY {
            text_of(*old(line)).push(letter)
        } else {
            text_of(*old(line))
        }),
{
    line.push(letter as char).is_ok()
}

/// The bytes of a line, by `str::as_bytes` on the contents of the `heapless::String`.
///
/// Believed of it: the slice holds the bytes of the string, in order.
#[verifier::external_body]
pub(crate) fn line_bytes(line: &heapless::String<256>) -> (bytes: &[u8])
    ensures
        bytes@ == text_of(*line),
{
    line.as_bytes()
}

/// The digits of a natural number, most significant first.
pub open spec fn digits(value: nat) -> Seq<u8>
    decreases value,
{
    if value < 10 {
        seq![(ZERO + value) as u8]
    } else {
        digits(value / 10).push((ZERO + value % 10) as u8)
    }
}

/// A number in decimal notation.
pub open spec fn decimal(value: int) -> Seq<u8> {
    if value < 0 {
        seq![MINUS] + digits((-value) as nat)
    } else {
        digits(value as nat)
    }
}

/// The columns of a row: time, status, position, angular rate, acceleration, integrated angle,
/// pressure, air speed and fin angle.
pub open spec fn columns(time_ms: u64, payload: Payload) -> Seq<int> {
    seq![
        time_ms as int,
        payload.status as int,
        payload.gnss_lat as int,
        payload.gnss_long as int,
        payload.gnss_height as int,
        payload.angle_speed@[0] as int,
        payload.angle_speed@[1] as int,
        payload.angle_speed@[2] as int,
        payload.acceleration@[0] as int,
        payload.acceleration@[1] as int,
        payload.acceleration@[2] as int,
        payload.integrated_angle@[0] as int,
        payload.integrated_angle@[1] as int,
        payload.integrated_angle@[2] as int,
        payload.air_pressure@[0] as int,
        payload.air_pressure@[1] as int,
        payload.air_pressure@[2] as int,
        payload.air_speed as int,
        payload.fin_angle as int,
    ]
}

/// The first `count` numbers in decimal notation with commas between them.
pub open spec fn comma_separated(values: Seq<int>, count: nat) -> Seq<u8>
    decreases count,
{
    if count == 0 {
        Seq::empty()
    } else if count == 1 {
        decimal(values[0])
    } else {
        comma_separated(values, (count - 1) as nat).push(COMMA) + decimal(values[count - 1])
    }
}

/// The row of a telemetry record.
#[verifier::opaque]
pub open spec fn row(time_ms: u64, payload: Payload) -> Seq<u8> {
    comma_separated(columns(time_ms, payload), columns(time_ms, payload).len()).push(NEWLINE)
}

/// The column names, in the order of the columns.
pub fn csv_header() -> (header: &'static str)
    ensures
        header@
            == "Time_ms,Status,Lat,Long,Height10m,GyroX,GyroY,GyroZ,AccX,AccY,AccZ,IntegratedAngleX,IntegratedAngleY,IntegratedAngleZ,Press1,Press2,Press3,AirSpeed,FinAngle\n"@,
{
    "Time_ms,Status,Lat,Long,Height10m,GyroX,GyroY,GyroZ,AccX,AccY,AccZ,IntegratedAngleX,IntegratedAngleY,IntegratedAngleZ,Press1,Press2,Press3,AirSpeed,FinAngle\n"
}

fn push_digits(line: &mut heapless::String<256>, value: u128)
    requires
        text_of(*old(line)).len() + digits(value as nat).len() <= LINE_CAPACITY,
    ensures
        text_of(*final(line)) == text_of(*old(line)) + digits(value as nat),
    decreases value,
{
    if value >= 10 {
        push_digits(line, value / 10);
    }
    push_ascii(line, ZERO + (value % 10) as u8);
    assert(text_of(*line) =~= text_of(*old(line)) + digits(value as nat));
}

fn push_decimal(line: &mut heapless::String<256>, value: i128)
    requires
        text_of(*old(line)).len() + decimal(value as int).len() <= LINE_CAPACITY,
        value > i128::MIN,
    ensures
        text_of(*final(line)) == text_of(*old(line)) + decimal(value as int),
{
    if value < 0 {
        push_ascii(line, MINUS);
        push_digits(line, (-value) as u128);
    } else {
        push_digits(line, value as u128);
    }
    assert(text_of(*line) =~= text_of(*old(line)) + decimal(value as int));
}

/// Puts the row of a telemetry record together. It always fits.
pub fn csv_row(time_ms: u64, payload: &Payload) -> (line: heapless::String<256>)
    ensures
        text_of(line) == row(time_ms, *payload),
        text_of(line).len() <= MAX_ROW_LEN,
{
    let values: [i128; 19] = [
        time_ms as i128,
        payload.status as i128,
        payload.gnss_lat as i128,
        payload.gnss_long as i128,
        payload.gnss_height as i128,
        payload.angle_speed[0] as i128,
        payload.angle_speed[1] as i128,
        payload.angle_speed[2] as i128,
        payload.acceleration[0] as i128,
        payload.acceleration[1] as i128,
        payload.acceleration[2] as i128,
        payload.integrated_angle[0] as i128,
        payload.integrated_angle[1] as i128,
        payload.integrated_angle[2] as i128,
        payload.air_pressure[0] as i128,
        payload.air_pressure[1] as i128,
        payload.air_pressure[2] as i128,
        payload.air_speed as i128,
        payload.fin_angle as i128,
    ];
    let ghost all = columns(time_ms, *payload);
    assert(forall|i: int| 0 <= i < 19 ==> values@[i] == all[i]);
    assert(forall|i: int| 0 <= i < 19 ==> #[trigger] values@[i] > i128::MIN);
    let mut line = new_line();
    let mut index: usize = 0;
    while index < 19
        invariant
            index <= 19,
            values@.len() == 19,
            all == columns(time_ms, *payload),
            forall|i: int| 0 <= i < 19 ==> values@[i] == all[i],
            forall|i: int| 0 <= i < 19 ==> #[trigger] values@[i] > i128::MIN,
            text_of(line) == comma_separated(all, index as nat),
        decreases 19 - index,
    {
        proof {
            lemma_columns_fit(time_ms, *payload, (index + 1) as nat);
        }
        if index > 0 {
            push_ascii(&mut line, COMMA);
        }
        push_decimal(&mut line, values[index]);
        index = index + 1;
        assert(text_of(line) =~= comma_separated(all, index as nat));
    }
    proof {
        lemma_columns_fit(time_ms, *payload, 19);
        reveal(row);
    }
    push_ascii(&mut line, NEWLINE);
    line
}

/// Ten to the power of `count`.
pub open spec fn power_of_ten(count: nat) -> nat
    decreases count,
{
    if count == 0 {
        1
    } else {
        10 * power_of_ten((count - 1) as nat)
    }
}

proof fn lemma_digit_count(value: nat, count: nat)
    requires
        count >= 1,
        value < power_of_ten(count),
    ensures
        1 <= digits(value).len() <= count,
    decreases count,
{
    if value >= 10 {
        assert(count >= 2) by {
            reveal_with_fuel(power_of_ten, 2);
        }
        lemma_digit_count(value / 10, (count - 1) as nat);
    }
}

/// The most characters that each column can take.
spec fn widths() -> Seq<int> {
    seq![20, 3, 11, 11, 6, 6, 6, 6, 6, 6, 6, 6, 6, 6, 3, 3, 3, 3, 4]
}

/// The most characters that the first `count` columns can take, with the commas between them.
spec fn total_width(count: nat) -> int
    decreases count,
{
    if count == 0 {
        0
    } else if count == 1 {
        widths()[0]
    } else {
        total_width((count - 1) as nat) + 1 + widths()[count - 1]
    }
}

proof fn lemma_widths(time_ms: u64, payload: Payload)
    ensures
        forall|i: int|
            0 <= i < 19 ==> decimal(#[trigger] columns(time_ms, payload)[i]).len() <= widths()[i],
{
    let all = columns(time_ms, payload);
    reveal_with_fuel(power_of_ten, 21);
    assert forall|i: int| 0 <= i < 19 implies decimal(#[trigger] all[i]).len() <= widths()[i] by {
        let magnitude = (if all[i] < 0 {
            -all[i]
        } else {
            all[i]
        }) as nat;
        if i == 0 {
            lemma_digit_count(magnitude, 20);
        } else if i == 1 || 14 <= i <= 17 {
            lemma_digit_count(magnitude, 3);
        } else if i == 2 || i == 3 {
            lemma_digit_count(magnitude, 10);
        } else if i == 18 {
            lemma_digit_count(magnitude, 3);
        } else {
            lemma_digit_count(magnitude, 5);
        }
    }
}

proof fn lemma_prefix_width(time_ms: u64, payload: Payload, count: nat)
    requires
        count <= 19,
    ensures
        comma_separated(columns(time_ms, payload), count).len() <= total_width(count),
    decreases count,
{
    lemma_widths(time_ms, payload);
    if count == 1 {
        assert(decimal(columns(time_ms, payload)[0]).len() <= widths()[0]);
    } else if count > 1 {
        lemma_prefix_width(time_ms, payload, (count - 1) as nat);
        assert(decimal(columns(time_ms, payload)[count - 1]).len() <= widths()[count - 1]);
    }
}

proof fn lemma_total_width(count: nat)
    requires
        count <= 19,
    ensures
        total_width(count) < MAX_ROW_LEN,
{
    reveal_with_fuel(total_width, 20);
}

proof fn lemma_columns_fit(time_ms: u64, payload: Payload, count: nat)
    requires
        count <= 19,
    ensures
        comma_separated(columns(time_ms, payload), count).len() < MAX_ROW_LEN,
{
    lemma_prefix_width(time_ms, payload, count);
    lemma_total_width(count);
}

/// Law: a row ends the line and fits into the line buffer with room to spare, whatever the record
/// holds.
pub proof fn law_rows_fit(time_ms: u64, payload: Payload)
    ensures
        1 <= row(time_ms, payload).len() <= MAX_ROW_LEN,
        row(time_ms, payload).last() == NEWLINE,
{
    reveal(row);
    lemma_columns_fit(time_ms, payload, 19);
}

proof fn lemma_digits_are_digits(value: nat)
    ensures
        digits(value).len() >= 1,
        forall|i: int|
            0 <= i < digits(value).len() ==> ZERO <= #[trigger] digits(value)[i] <= ZERO + 9,
    decreases value,
{
    if value >= 10 {
        lemma_digits_are_digits(value / 10);
    }
}

proof fn lemma_decimal_has_no_comma(value: int)
    ensures
        decimal(value).len() >= 1,
        forall|i: int| 0 <= i < decimal(value).len() ==> #[trigger] decimal(value)[i] != COMMA,
{
    if value < 0 {
        lemma_digits_are_digits((-value) as nat);
        assert forall|i: int| 0 <= i < decimal(value).len() implies #[trigger] decimal(value)[i]
            != COMMA by {
            if i > 0 {
                assert(decimal(value)[i] == digits((-value) as nat)[i - 1]);
            }
        }
    } else {
        lemma_digits_are_digits(value as nat);
    }
}

proof fn lemma_digits_determine_the_number(a: nat, b: nat)
    requires
        digits(a) == digits(b),
    ensures
        a == b,
    decreases a,
{
    lemma_digits_are_digits(a / 10);
    lemma_digits_are_digits(b / 10);
    assert(digits(a).last() == digits(b).last());
    if a >= 10 && b >= 10 {
        assert(digits(a).drop_last() =~= digits(a / 10));
        assert(digits(b).drop_last() =~= digits(b / 10));
        lemma_digits_determine_the_number(a / 10, b / 10);
        assert(digits(a).last() == ZERO + a % 10 && digits(b).last() == ZERO + b % 10);
    } else if a >= 10 {
        assert(digits(a).len() == digits(a / 10).len() + 1);
    } else if b >= 10 {
        assert(digits(b).len() == digits(b / 10).len() + 1);
    } else {
        assert(digits(a)[0] == ZERO + a && digits(b)[0] == ZERO + b);
    }
}

/// Law: decimal notation determines the number.
pub proof fn law_decimals_determine_the_number(a: int, b: int)
    requires
        decimal(a) == decimal(b),
    ensures
        a == b,
{
    if a < 0 {
        lemma_digits_are_digits((-a) as nat);
    } else {
        lemma_digits_are_digits(a as nat);
        assert(decimal(a)[0] == digits(a as nat)[0]);
    }
    if b < 0 {
        lemma_digits_are_digits((-b) as nat);
    } else {
        lemma_digits_are_digits(b as nat);
        assert(decimal(b)[0] == digits(b as nat)[0]);
    }
    assert(decimal(a)[0] == decimal(b)[0]);
    if a < 0 && b < 0 {
        assert(decimal(a).subrange(1, decimal(a).len() as int) =~= digits((-a) as nat));
        assert(decimal(b).subrange(1, decimal(b).len() as int) =~= digits((-b) as nat));
        lemma_digits_determine_the_number((-a) as nat, (-b) as nat);
    } else if a >= 0 && b >= 0 {
        lemma_digits_determine_the_number(a as nat, b as nat);
    }
}

proof fn lemma_last_comma_splits(x: Seq<u8>, a: Seq<u8>, y: Seq<u8>, b: Seq<u8>)
    requires
        x.push(COMMA) + a == y.push(COMMA) + b,
        forall|i: int| 0 <= i < a.len() ==> #[trigger] a[i] != COMMA,
        forall|i: int| 0 <= i < b.len() ==> #[trigger] b[i] != COMMA,
    ensures
        x == y,
        a == b,
{
    let whole = x.push(COMMA) + a;
    let same = y.push(COMMA) + b;
    assert(whole.len() == x.len() + 1 + a.len() && same.len() == y.len() + 1 + b.len());
    assert(whole[x.len() as int] == COMMA && same[y.len() as int] == COMMA);
    if x.len() < y.len() {
        assert(whole[y.len() as int] == a[y.len() - x.len() - 1]);
    } else if y.len() < x.len() {
        assert(same[x.len() as int] == b[x.len() - y.len() - 1]);
    }
    assert(x =~= whole.take(x.len() as int) && y =~= same.take(y.len() as int));
    assert(a =~= whole.skip(x.len() as int + 1) && b =~= same.skip(y.len() as int + 1));
}

proof fn lemma_separated_values_determine_the_numbers(a: Seq<int>, b: Seq<int>, count: nat)
    requires
        comma_separated(a, count) == comma_separated(b, count),
    ensures
        forall|i: int| 0 <= i < count ==> a[i] == b[i],
    decreases count,
{
    if count == 1 {
        law_decimals_determine_the_number(a[0], b[0]);
    } else if count > 1 {
        lemma_decimal_has_no_comma(a[count - 1]);
        lemma_decimal_has_no_comma(b[count - 1]);
        lemma_last_comma_splits(
            comma_separated(a, (count - 1) as nat),
            decimal(a[count - 1]),
            comma_separated(b, (count - 1) as nat),
            decimal(b[count - 1]),
        );
        law_decimals_determine_the_number(a[count - 1], b[count - 1]);
        lemma_separated_values_determine_the_numbers(a, b, (count - 1) as nat);
    }
}

/// Law: a row determines every recorded value.
pub proof fn law_rows_determine_the_values(
    time_a: u64,
    a: Payload,
    time_b: u64,
    b: Payload,
)
    requires
        row(time_a, a) == row(time_b, b),
    ensures
        columns(time_a, a) == columns(time_b, b),
{
    reveal(row);
    assert(row(time_a, a).drop_last() =~= comma_separated(columns(time_a, a), 19));
    assert(row(time_b, b).drop_last() =~= comma_separated(columns(time_b, b), 19));
    lemma_separated_values_determine_the_numbers(columns(time_a, a), columns(time_b, b), 19);
}

/// The number that a row of digits spells.
pub open spec fn number_spelled(text: Seq<u8>) -> int
    decreases text.len(),
{
    if text.len() == 0 {
        0
    } else {
        10 * number_spelled(text.drop_last()) + text.last() - 0x30
    }
}

/// The number that a column spells, with a minus sign where it is negative.
pub open spec fn number_read(text: Seq<u8>) -> int {
    if text.len() > 0 && text[0] == 0x2d {
        -number_spelled(text.skip(1))
    } else {
        number_spelled(text)
    }
}

/// What stands after the last comma.
pub open spec fn last_column(text: Seq<u8>) -> Seq<u8>
    decreases text.len(),
{
    if text.len() == 0 || text.last() == 0x2c {
        Seq::empty()
    } else {
        last_column(text.drop_last()).push(text.last())
    }
}

/// What stands before the last comma.
pub open spec fn earlier_columns(text: Seq<u8>) -> Option<Seq<u8>>
    decreases text.len(),
{
    if text.len() == 0 {
        None
    } else if text.last() == 0x2c {
        Some(text.drop_last())
    } else {
        earlier_columns(text.drop_last())
    }
}

/// The numbers that a line of at most `count` columns holds, as a reader of the file takes them.
pub open spec fn numbers_read(text: Seq<u8>, count: nat) -> Seq<int>
    decreases count,
{
    if count == 0 {
        Seq::empty()
    } else {
        match earlier_columns(text) {
            None => seq![number_read(last_column(text))],
            Some(earlier) => numbers_read(earlier, (count - 1) as nat).push(
                number_read(last_column(text)),
            ),
        }
    }
}

proof fn lemma_digits_spell_the_number(value: nat)
    ensures
        number_spelled(digits(value)) == value,
        value >= 10 ==> digits(value)[0] != 0x30,
        value < 10 ==> digits(value).len() == 1,
    decreases value,
{
    if value >= 10 {
        lemma_digits_spell_the_number(value / 10);
        lemma_digits_are_digits(value / 10);
        assert(digits(value).drop_last() =~= digits(value / 10));
        assert(digits(value).last() == 0x30 + value % 10);
        assert(digits(value)[0] == digits(value / 10)[0]);
        if value / 10 < 10 {
            assert(digits(value / 10)[0] == 0x30 + value / 10);
        }
    } else {
        assert(digits(value).drop_last() =~= Seq::<u8>::empty());
        assert(digits(value).last() == 0x30 + value);
        assert(number_spelled(Seq::<u8>::empty()) == 0);
    }
}

/// Law: decimal notation reads back as the number, in digits without leading zeros, after a minus
/// sign exactly where the number is negative.
pub proof fn law_decimals_read_back(value: int)
    ensures
        number_read(decimal(value)) == value,
        decimal(value)[0] == 0x2d <==> value < 0,
        decimal(value)[0] == 0x30 ==> value == 0 && decimal(value).len() == 1,
        forall|i: int|
            1 <= i < decimal(value).len() ==> 0x30 <= #[trigger] decimal(value)[i] <= 0x39,
        value < 0 ==> decimal(value).len() > 1 && decimal(value)[1] != 0x30,
{
    if value < 0 {
        let text = digits((-value) as nat);
        lemma_digits_are_digits((-value) as nat);
        lemma_digits_spell_the_number((-value) as nat);
        assert(decimal(value).skip(1) =~= text);
        assert forall|i: int| 1 <= i < decimal(value).len() implies 0x30
            <= #[trigger] decimal(value)[i] <= 0x39 by {
            assert(decimal(value)[i] == text[i - 1]);
        }
        assert(decimal(value)[1] == text[0]);
        if -value < 10 {
            assert(text[0] == 0x30 - value);
        }
    } else {
        lemma_digits_are_digits(value as nat);
        lemma_digits_spell_the_number(value as nat);
        assert(decimal(value)[0] == digits(value as nat)[0]);
        if value < 10 {
            assert(digits(value as nat)[0] == 0x30 + value);
        }
    }
}

proof fn lemma_columns_split(earlier: Seq<u8>, column: Seq<u8>)
    requires
        forall|i: int| 0 <= i < column.len() ==> #[trigger] column[i] != COMMA,
    ensures
        last_column(earlier.push(COMMA) + column) == column,
        earlier_columns(earlier.push(COMMA) + column) == Some(earlier),
    decreases column.len(),
{
    let text = earlier.push(COMMA) + column;
    if column.len() == 0 {
        assert(text =~= earlier.push(COMMA));
        assert(text.drop_last() =~= earlier);
    } else {
        let shorter = column.drop_last();
        assert forall|i: int| 0 <= i < shorter.len() implies #[trigger] shorter[i] != COMMA by {
            assert(shorter[i] == column[i]);
        }
        lemma_columns_split(earlier, shorter);
        assert(text.drop_last() =~= earlier.push(COMMA) + shorter);
        assert(text.last() == column[column.len() - 1]);
        assert(shorter.push(column.last()) =~= column);
    }
}

proof fn lemma_single_column(column: Seq<u8>)
    requires
        forall|i: int| 0 <= i < column.len() ==> #[trigger] column[i] != COMMA,
    ensures
        last_column(column) == column,
        earlier_columns(column) is None,
    decreases column.len(),
{
    if column.len() > 0 {
        let shorter = column.drop_last();
        assert forall|i: int| 0 <= i < shorter.len() implies #[trigger] shorter[i] != COMMA by {
            assert(shorter[i] == column[i]);
        }
        lemma_single_column(shorter);
        assert(column.last() == column[column.len() - 1]);
        assert(shorter.push(column.last()) =~= column);
    } else {
        assert(last_column(column) =~= column);
    }
}

proof fn lemma_separated_numbers_read_back(values: Seq<int>, count: nat)
    requires
        1 <= count <= values.len(),
    ensures
        numbers_read(comma_separated(values, count), count) == values.take(count as int),
    decreases count,
{
    let text = comma_separated(values, count);
    lemma_decimal_has_no_comma(values[count - 1]);
    law_decimals_read_back(values[count - 1]);
    if count == 1 {
        lemma_single_column(text);
        assert(values.take(1) =~= seq![values[0]]);
    } else {
        let shorter = (count - 1) as nat;
        lemma_separated_numbers_read_back(values, shorter);
        lemma_columns_split(comma_separated(values, shorter), decimal(values[count - 1]));
        assert(values.take(shorter as int).push(values[count - 1]) =~= values.take(count as int));
    }
}

/// Law: a row reads back as the time and the values of the record, column by column in this
/// order, and ends in a line feed.
pub proof fn law_rows_read_back(time_ms: u64, payload: Payload)
    ensures
        row(time_ms, payload).last() == 0x0a,
        ({
            let read = numbers_read(row(time_ms, payload).drop_last(), 19);
            &&& read.len() == 19
            &&& read[0] == time_ms
            &&& read[1] == payload.status
            &&& read[2] == payload.gnss_lat
            &&& read[3] == payload.gnss_long
            &&& read[4] == payload.gnss_height
            &&& forall|i: int| 0 <= i < 3 ==> read[5 + i] == #[trigger] payload.angle_speed@[i]
            &&& forall|i: int| 0 <= i < 3 ==> read[8 + i] == #[trigger] payload.acceleration@[i]
            &&& forall|i: int|
                0 <= i < 3 ==> read[11 + i] == #[trigger] payload.integrated_angle@[i]
            &&& forall|i: int| 0 <= i < 3 ==> read[14 + i] == #[trigger] payload.air_pressure@[i]
            &&& read[17] == payload.air_speed
            &&& read[18] == payload.fin_angle
        }),
{
    let all = columns(time_ms, payload);
    reveal(row);
    assert(row(time_ms, payload).drop_last() =~= comma_separated(all, 19));
    lemma_separated_numbers_read_back(all, 19);
    assert(all.take(19) =~= all);
}

} // verus!
