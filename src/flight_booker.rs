use vstd::prelude::*;

verus! {

/// A calendar date as (day, month, year).
pub type Date = (u32, u32, u32);

/// Whether `c` is one of the ASCII digits.
pub open spec fn is_digit(c: char) -> bool {
    '0' <= c && c <= '9'
}

/// The value of the ASCII digit `c`.
pub open spec fn digit_value(c: char) -> nat {
    (c as int - '0' as int) as nat
}

/// Whether every character of `s` is an ASCII digit.
pub open spec fn all_digits(s: Seq<char>) -> bool {
    forall|i: int| 0 <= i < s.len() ==> is_digit(#[trigger] s[i])
}

/// The number that the digits `s` spell in base ten.
pub open spec fn digits_value(s: Seq<char>) -> nat
    decreases s.len(),
{
    if s.len() == 0 {
        0
    } else {
        digits_value(s.drop_last()) * 10 + digit_value(s.last())
    }
}

/// The `u32` that `s` denotes: an optional `+`, then at least one digit,
/// with a value that fits in 32 bits.
pub open spec fn parse_u32(s: Seq<char>) -> Option<u32> {
    let t = if s.len() > 0 && s[0] == '+' {
        s.drop_first()
    } else {
        s
    };
    if t.len() > 0 && all_digits(t) && digits_value(t) <= u32::MAX {
        Some(digits_value(t) as u32)
    } else {
        None
    }
}

/// The pieces of `s` between the dots, in order; `s` without a dot is one piece.
pub open spec fn split_dots(s: Seq<char>) -> Seq<Seq<char>>
    decreases s.len(),
{
    if s.len() == 0 {
        seq![Seq::empty()]
    } else {
        let parts = split_dots(s.drop_last());
        if s.last() == '.' {
            parts.push(Seq::empty())
        } else {
            parts.update(parts.len() - 1, parts.last().push(s.last()))
        }
    }
}

/// Leap years: divisible by 4, and not by 100 unless by 400.
pub open spec fn is_leap_year(year: u32) -> bool {
    (year % 4 == 0 && year % 100 != 0) || year % 400 == 0
}

/// The number of days of `month` in `year`; zero for a month out of 1..=12.
pub open spec fn days_in_month(month: u32, year: u32) -> u32 {
    if month == 1 || month == 3 || month == 5 || month == 7 || month == 8 || month == 10
        || month == 12 {
        31
    } else if month == 4 || month == 6 || month == 9 || month == 11 {
        30
    } else if month == 2 {
        if is_leap_year(year) {
            29
        } else {
            28
        }
    } else {
        0
    }
}

/// The date that `s` denotes: three numbers `day.month.year`, none of them
/// zero, with the day within the month.
pub open spec fn date_of(s: Seq<char>) -> Option<Date> {
    let parts = split_dots(s);
    if parts.len() != 3 {
        None
    } else {
        match (parse_u32(parts[0]), parse_u32(parts[1]), parse_u32(parts[2])) {
            (Some(day), Some(month), Some(year)) => {
                if 1 <= day && day <= days_in_month(month, year) && year >= 1 {
                    Some((day, month, year))
                } else {
                    None
                }
            },
            _ => None,
        }
    }
}

proof fn lemma_digits_value_prefix(t: Seq<char>, k: int)
    requires
        0 <= k <= t.len(),
        all_digits(t),
    ensures
        digits_value(t.take(k)) <= digits_value(t),
    decreases t.len(),
{
    if k < t.len() {
        assert(t.take(k) =~= t.drop_last().take(k));
        lemma_digits_value_prefix(t.drop_last(), k);
    } else {
        assert(t.take(k) =~= t);
    }
}

/// Where the piece of index `k` ends, given where each piece starts and the
/// length `n` of the whole: one before the next start, or `n` for the last.
pub open spec fn piece_end(starts: Seq<usize>, k: int, n: int) -> int {
    if k + 1 < starts.len() {
        starts[k + 1] - 1
    } else {
        n
    }
}

proof fn lemma_split_dots_nonempty(s: Seq<char>)
    ensures
        split_dots(s).len() >= 1,
    decreases s.len(),
{
    if s.len() > 0 {
        lemma_split_dots_nonempty(s.drop_last());
    }
}

/// Where each piece of `s` between dots starts; `n` is the length of `s`.
fn piece_starts(s: &str, n: usize) -> (r: Vec<usize>)
    requires
        n == s@.len(),
    ensures
        r@.len() == split_dots(s@).len(),
        r@.len() >= 1,
        r@[0] == 0,
        forall|k: int| 0 <= k < r@.len() - 1 ==> #[trigger] r@[k] < r@[k + 1],
        r@[r@.len() - 1] <= n,
        forall|k: int|
            0 <= k < r@.len() ==> #[trigger] split_dots(s@)[k] == s@.subrange(
                r@[k] as int,
                piece_end(r@, k, n as int),
            ),
{
    let mut starts: Vec<usize> = Vec::new();
    starts.push(0);
    let mut i: usize = 0;
    assert(s@.take(0) =~= Seq::<char>::empty());
    while i < n
        invariant
            0 <= i <= n,
            n == s@.len(),
            starts@.len() == split_dots(s@.take(i as int)).len(),
            starts@.len() >= 1,
            starts@[0] == 0,
            forall|k: int| 0 <= k < starts@.len() - 1 ==> #[trigger] starts@[k] < starts@[k + 1],
            starts@[starts@.len() - 1] <= i,
            forall|k: int|
                0 <= k < starts@.len() ==> #[trigger] split_dots(s@.take(i as int))[k]
                    == s@.subrange(starts@[k] as int, piece_end(starts@, k, i as int)),
        decreases n - i,
    {
        let c = s.get_char(i);
        let ghost before = split_dots(s@.take(i as int));
        let ghost old_starts = starts@;
        assert(s@.take(i + 1).drop_last() =~= s@.take(i as int));
        assert(s@.take(i + 1).last() == c);
        if c == '.' {
            starts.push(i + 1);
            assert forall|k: int| 0 <= k < starts@.len() implies #[trigger] split_dots(
                s@.take(i + 1),
            )[k] == s@.subrange(starts@[k] as int, piece_end(starts@, k, i + 1)) by {
                if k < old_starts.len() {
                    assert(before[k] == s@.subrange(
                        old_starts[k] as int,
                        piece_end(old_starts, k, i as int),
                    ));
                }
            }
        } else {
            assert forall|k: int| 0 <= k < starts@.len() implies #[trigger] split_dots(
                s@.take(i + 1),
            )[k] == s@.subrange(starts@[k] as int, piece_end(starts@, k, i + 1)) by {
                assert(before[k] == s@.subrange(
                    starts@[k] as int,
                    piece_end(starts@, k, i as int),
                ));
                if k == starts@.len() - 1 {
                    assert(s@.subrange(starts@[k] as int, i + 1) =~= s@.subrange(
                        starts@[k] as int,
                        i as int,
                    ).push(c));
                }
            }
        }
        i = i + 1;
    }
    assert(s@.take(n as int) =~= s@);
    starts
}

/// Reads the number that `s@[from..to]` denotes.
fn parse_range(s: &str, from: usize, to: usize) -> (r: Option<u32>)
    requires
        from <= to <= s@.len(),
    ensures
        r == parse_u32(s@.subrange(from as int, to as int)),
{
    let ghost whole = s@.subrange(from as int, to as int);
    let mut start: usize = from;
    if from < to && s.get_char(from) == '+' {
        start = from + 1;
    }
    let ghost t = s@.subrange(start as int, to as int);
    assert(t =~= (if whole.len() > 0 && whole[0] == '+' { whole.drop_first() } else { whole }));
    if start == to {
        return None;
    }
    let mut val: u64 = 0;
    let mut k: usize = start;
    while k < to
        invariant
            start <= k <= to <= s@.len(),
            t == s@.subrange(start as int, to as int),
            parse_u32(s@.subrange(from as int, to as int)) == (if all_digits(t) && digits_value(t)
                <= u32::MAX {
                Some(digits_value(t) as u32)
            } else {
                None
            }),
            all_digits(t.take(k - start)),
            val == digits_value(t.take(k - start)),
            val <= u32::MAX,
        decreases to - k,
    {
        let c = s.get_char(k);
        let ghost p = t.take(k - start);
        let ghost q = t.take(k + 1 - start);
        assert(q.drop_last() =~= p);
        assert(q.last() == c);
        if !('0' <= c && c <= '9') {
            assert(!is_digit(t[k - start]));
            return None;
        }
        val = val * 10 + (c as u64 - '0' as u64);
        if val > u32::MAX as u64 {
            proof {
                if all_digits(t) {
                    lemma_digits_value_prefix(t, k + 1 - start);
                }
            }
            return None;
        }
        k = k + 1;
    }
    assert(t.take(k - start) =~= t);
    Some(val as u32)
}

/// Reads a date written `day.month.year`.
///
/// The text must hold exactly two dots; each of the three numbers is an
/// optional `+` and decimal digits, fits in a `u32` and is not zero; the
/// month is within 1..=12 and the day within the month, with February of a
/// leap year having 29 days.
pub fn validate_date(date: &str) -> (r: Option<Date>)
    ensures
        r == date_of(date@),
{
    let n = date.unicode_len();
    let starts = piece_starts(date, n);
    if starts.len() != 3 {
        return None;
    }
    let ghost parts = split_dots(date@);
    assert(parts[0] == date@.subrange(starts@[0] as int, piece_end(starts@, 0, n as int)));
    assert(parts[1] == date@.subrange(starts@[1] as int, piece_end(starts@, 1, n as int)));
    assert(parts[2] == date@.subrange(starts@[2] as int, piece_end(starts@, 2, n as int)));
    let day = match parse_range(date, starts[0], starts[1] - 1) {
        Some(num) => {
            if num == 0 {
                return None;
            }
            num
        },
        None => return None,
    };
    let month = match parse_range(date, starts[1], starts[2] - 1) {
        Some(num) => {
            if num == 0 {
                return None;
            }
            num
        },
        None => return None,
    };
    let year = match parse_range(date, starts[2], n) {
        Some(num) => {
            if num == 0 {
                return None;
            }
            num
        },
        None => return None,
    };

    let mut leap_year = year % 4 == 0;
    if year % 100 == 0 {
        leap_year = year % 400 == 0;
    }
    assert(leap_year == is_leap_year(year));

    if month == 1 || month == 3 || month == 5 || month == 7 || month == 8 || month == 10
        || month == 12 {
        if day > 31 {
            return None;
        }
    } else if month == 2 {
        if leap_year {
            if day > 29 {
                return None;
            }
        } else {
            if day > 28 {
                return None;
            }
        }
    } else if month == 4 || month == 6 || month == 9 || month == 11 {
        if day > 30 {
            return None;
        }
    } else {
        return None;
    }

    Some((day, month, year))
}

/// The character of the decimal digit `d`.
pub open spec fn digit_char(d: nat) -> char {
    (d + '0' as nat) as char
}

/// The decimal digits of `n`, without leading zeros.
pub open spec fn decimal(n: nat) -> Seq<char>
    decreases n,
{
    if n < 10 {
        seq![digit_char(n)]
    } else {
        decimal(n / 10).push(digit_char(n % 10))
    }
}

/// The decimal digits of `n`, with zeros in front up to `width` characters.
pub open spec fn zero_padded(n: nat, width: nat) -> Seq<char> {
    let d = decimal(n);
    if d.len() < width {
        Seq::new((width - d.len()) as nat, |_i: int| '0') + d
    } else {
        d
    }
}

/// A date as `DD.MM.YYYY`.
pub open spec fn date_text(d: Date) -> Seq<char> {
    zero_padded(d.0 as nat, 2) + seq!['.'] + zero_padded(d.1 as nat, 2) + seq!['.']
        + zero_padded(d.2 as nat, 4)
}

fn digit_str(d: u32) -> (r: &'static str)
    requires
        d < 10,
    ensures
        r@ == seq![digit_char(d as nat)],
{
    proof {
        reveal_strlit("0123456789");
    }
    let r = "0123456789".substring_char(d as usize, d as usize + 1);
    assert(r@ =~= seq!["0123456789"@[d as int]]);
    r
}

fn decimal_string(n: u32) -> (r: String)
    ensures
        r@ == decimal(n as nat),
    decreases n,
{
    if n < 10 {
        String::from_str(digit_str(n))
    } else {
        let mut r = decimal_string(n / 10);
        r.append(digit_str(n % 10));
        r
    }
}

fn zero_padded_string(n: u32, width: usize) -> (r: String)
    ensures
        r@ == zero_padded(n as nat, width as nat),
{
    let digits = decimal_string(n);
    let len = digits.as_str().unicode_len();
    let mut r = String::new();
    let mut k: usize = len;
    while k < width
        invariant
            len == decimal(n as nat).len(),
            len <= k,
            k <= width || k == len,
            r@ =~= Seq::new((k - len) as nat, |_i: int| '0'),
        decreases width - k,
    {
        proof {
            reveal_strlit("0");
        }
        r.append("0");
        k = k + 1;
    }
    r.append(digits.as_str());
    r
}

/// Writes a date as `DD.MM.YYYY`.
pub fn format_date(d: Date) -> (r: String)
    ensures
        r@ == date_text(d),
{
    let mut r = zero_padded_string(d.0, 2);
    proof {
        reveal_strlit(".");
    }
    r.append(".");
    r.append(zero_padded_string(d.1, 2).as_str());
    r.append(".");
    r.append(zero_padded_string(d.2, 4).as_str());
    r
}

/// Whether `a` falls on or before `b`, comparing year, then month, then day.
pub open spec fn date_le(a: Date, b: Date) -> bool {
    a.2 < b.2 || (a.2 == b.2 && (a.1 < b.1 || (a.1 == b.1 && a.0 <= b.0)))
}

/// The kind of trip to book.
#[derive(Debug, Clone, Copy, PartialEq, Eq, Structural)]
pub enum Flight {
    OneWay,
    Return,
}

/// How a kind of trip is shown to the user.
pub open spec fn flight_label(f: Flight) -> Seq<char> {
    match f {
        Flight::OneWay => "one-way flight"@,
        Flight::Return => "return flight"@,
    }
}

impl Default for Flight {
    fn default() -> (r: Flight)
        ensures
            r == Flight::OneWay,
    {
        Flight::OneWay
    }
}

impl Flight {
    /// How this kind of trip is shown to the user.
    pub fn label(&self) -> (r: String)
        ensures
            r@ == flight_label(*self),
    {
        match self {
            Flight::OneWay => String::from_str("one-way flight"),
            Flight::Return => String::from_str("return flight"),
        }
    }
}

/// Whether a trip of kind `flight` can be booked with the dates read so far:
/// a one-way trip needs its outbound date, a return trip both dates with the
/// return not before the outbound.
pub open spec fn can_book(flight: Flight, outbound: Option<Date>, back: Option<Date>) -> bool {
    match flight {
        Flight::OneWay => outbound is Some,
        Flight::Return => outbound is Some && back is Some && date_le(
            outbound->0,
            back->0,
        ),
    }
}

/// The confirmation of a one-way trip on `d`.
pub open spec fn one_way_text(d: Date) -> Seq<char> {
    "You have booked a one-way flight on "@ + date_text(d)
}

/// The confirmation of a return trip leaving on `d1` and returning on `d2`.
pub open spec fn return_text(d1: Date, d2: Date) -> Seq<char> {
    "You have booked a flight leaving on "@ + date_text(d1) + " and returning on "@ + date_text(
        d2,
    )
}

/// Events of the flight booker.
#[derive(Debug, Clone)]
pub enum Message {
    Book,
    FlightSelected(Flight),
    OneWayFlightChanged(String),
    ReturnFlightChanged(String),
}

/// A form that books a one-way or a return flight.
///
/// The text of each date field is kept as typed, together with the date it
/// denotes, if any; `book` tells whether the form can be submitted.
#[derive(Debug, Clone)]
pub struct FlightBooker {
    pub selected_flight: Flight,
    pub one_way_flight: String,
    pub one_way_flight_date: Option<Date>,
    pub return_flight: String,
    pub return_flight_date: Option<Date>,
    pub book: bool,
    pub show_dialogue: bool,
    pub dialogue_string: String,
}

impl FlightBooker {
    /// Each stored date is the one its text denotes, and `book` says whether
    /// the selected trip can be booked with them.
    pub open spec fn wf(&self) -> bool {
        &&& self.one_way_flight_date == date_of(self.one_way_flight@)
        &&& self.return_flight_date == date_of(self.return_flight@)
        &&& self.book == can_book(
            self.selected_flight,
            self.one_way_flight_date,
            self.return_flight_date,
        )
    }

    /// An empty one-way form.
    pub fn new() -> (r: FlightBooker)
        ensures
            r.wf(),
            r.selected_flight == Flight::OneWay,
            r.one_way_flight@.len() == 0,
            r.return_flight@.len() == 0,
            !r.book,
            !r.show_dialogue,
            r.dialogue_string@.len() == 0,
    {
        let r = FlightBooker {
            selected_flight: Flight::OneWay,
            one_way_flight: String::new(),
            one_way_flight_date: None,
            return_flight: String::new(),
            return_flight_date: None,
            book: false,
            show_dialogue: false,
            dialogue_string: String::new(),
        };
        assert(split_dots(Seq::<char>::empty()).len() == 1);
        r
    }

    /// Sets `book` to whether the outbound date was read.
    pub fn validate_one_way_flight(&mut self)
        ensures
            *final(self) == (FlightBooker {
                book: old(self).one_way_flight_date is Some,
                ..*old(self)
            }),
    {
        match &self.one_way_flight_date {
            Some(_) => self.book = true,
            None => self.book = false,
        }
    }

    /// Sets `book` to whether both dates were read and the return is not
    /// before the outbound.
    pub fn validate_return_flight(&mut self)
        ensures
            *final(self) == (FlightBooker {
                book: can_book(
                    Flight::Return,
                    old(self).one_way_flight_date,
                    old(self).return_flight_date,
                ),
                ..*old(self)
            }),
    {
        match (&self.one_way_flight_date, &self.return_flight_date) {
            (Some((day_1, month_1, year_1)), Some((day_2, month_2, year_2))) => {
                self.book = *year_2 > *year_1 || (*year_2 == *year_1 && (*month_2 > *month_1 || (
                *month_2 == *month_1 && *day_2 >= *day_1)));
            },
            _ => self.book = false,
        }
    }

    /// Sets `book` by the rule of the selected kind of trip.
    pub fn validate_flight(&mut self)
        ensures
            *final(self) == (FlightBooker {
                book: can_book(
                    old(self).selected_flight,
                    old(self).one_way_flight_date,
                    old(self).return_flight_date,
                ),
                ..*old(self)
            }),
    {
        match self.selected_flight {
            Flight::OneWay => self.validate_one_way_flight(),
            Flight::Return => self.validate_return_flight(),
        }
    }

    /// Applies one event.
    ///
    /// Editing a date field stores its text and the date it denotes; editing
    /// or switching the kind of trip hides the confirmation. `Book` acts only
    /// when the form can be booked: it shows the confirmation with the dates.
    pub fn update(&mut self, message: Message)
        requires
            old(self).wf(),
        ensures
            final(self).wf(),
            match message {
                Message::Book => if old(self).book {
                    &&& final(self).show_dialogue
                    &&& final(self).dialogue_string@ == match old(self).selected_flight {
                        Flight::OneWay => one_way_text(old(self).one_way_flight_date->0),
                        Flight::Return => return_text(
                            old(self).one_way_flight_date->0,
                            old(self).return_flight_date->0,
                        ),
                    }
                    &&& *final(self) == (FlightBooker {
                        show_dialogue: true,
                        dialogue_string: final(self).dialogue_string,
                        ..*old(self)
                    })
                } else {
                    *final(self) == *old(self)
                },
                Message::FlightSelected(f) => {
                    &&& final(self).selected_flight == f
                    &&& !final(self).show_dialogue
                    &&& final(self).one_way_flight == old(self).one_way_flight
                    &&& final(self).return_flight == old(self).return_flight
                    &&& final(self).dialogue_string == old(self).dialogue_string
                },
                Message::OneWayFlightChanged(text) => {
                    &&& final(self).one_way_flight == text
                    &&& !final(self).show_dialogue
                    &&& final(self).selected_flight == old(self).selected_flight
                    &&& final(self).return_flight == old(self).return_flight
                    &&& final(self).dialogue_string == old(self).dialogue_string
                },
                Message::ReturnFlightChanged(text) => {
                    &&& final(self).return_flight == text
                    &&& !final(self).show_dialogue
                    &&& final(self).selected_flight == old(self).selected_flight
                    &&& final(self).one_way_flight == old(self).one_way_flight
                    &&& final(self).dialogue_string == old(self).dialogue_string
                },
            },
    {
        match message {
            Message::Book => {
                if self.book {
                    match (self.selected_flight, self.one_way_flight_date, self.return_flight_date) {
                        (Flight::OneWay, Some(d), _) => {
                            let mut text = String::from_str("You have booked a one-way flight on ");
                            text.append(format_date(d).as_str());
                            self.dialogue_string = text;
                            self.show_dialogue = true;
                        },
                        (Flight::Return, Some(d1), Some(d2)) => {
                            let mut text = String::from_str(
                                "You have booked a flight leaving on ",
                            );
                            text.append(format_date(d1).as_str());
                            text.append(" and returning on ");
                            text.append(format_date(d2).as_str());
                            self.dialogue_string = text;
                            self.show_dialogue = true;
                        },
                        _ => {},
                    }
                }
            },
            Message::FlightSelected(flight) => {
                self.selected_flight = flight;
                self.show_dialogue = false;
                self.validate_flight();
            },
            Message::OneWayFlightChanged(date) => {
                self.show_dialogue = false;
                self.one_way_flight_date = validate_date(date.as_str());
                self.one_way_flight = date;
                self.validate_flight();
            },
            Message::ReturnFlightChanged(date) => {
                self.show_dialogue = false;
                self.return_flight_date = validate_date(date.as_str());
                self.return_flight = date;
                self.validate_flight();
            },
        }
    }
}

/// A return trip whose return date comes before its outbound date cannot be
/// booked.
pub proof fn lemma_return_before_outbound(b: FlightBooker)
    requires
        b.wf(),
        b.selected_flight == Flight::Return,
        b.one_way_flight_date is Some,
        b.return_flight_date is Some,
        !date_le(b.one_way_flight_date->0, b.return_flight_date->0),
    ensures
        !b.book,
{
}

} // verus!
