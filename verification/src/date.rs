//! Points in time, to the second.

use crate::binary::Decode;
use crate::binary::Encode;
use crate::binary::Error;
use crate::binary::Reader;
use crate::binary::Writer;
use chrono::Datelike;
use chrono::Timelike;
use vstd::prelude::*;

verus! {

pub type Year = u16;

pub type Month = u8;

pub type Day = u8;

pub type Hour = u8;

pub type Minute = u8;

pub type Second = u8;

/// Model of a [`Date`].
pub ghost struct DateModel {
    pub year: Year,
    pub month: Month,
    pub day: Day,
    pub hour: Hour,
    pub minute: Minute,
    pub second: Second,
}

/// A calendar date and a time of day.
#[derive(Clone, Copy, Debug, PartialEq, Eq, Structural)]
pub struct Date {
    year: Year,
    month: Month,
    day: Day,
    hour: Hour,
    minute: Minute,
    second: Second,
}

impl View for Date {
    type V = DateModel;

    closed spec fn view(&self) -> DateModel {
        DateModel {
            year: self.year,
            month: self.month,
            day: self.day,
            hour: self.hour,
            minute: self.minute,
            second: self.second,
        }
    }
}

impl DeepView for Date {
    type V = DateModel;

    open spec fn deep_view(&self) -> DateModel {
        self@
    }
}

impl Encode for Date {
    /// Seven bytes: the year, lower byte first, then month, day, hour,
    /// minute and second.
    open spec fn layout(&self) -> Option<Seq<u8>> {
        Some(
            seq![
                (self@.year % 256) as u8,
                (self@.year / 256) as u8,
                self@.month,
                self@.day,
                self@.hour,
                self@.minute,
                self@.second,
            ],
        )
    }

    fn encode(&self, writer: &mut Writer) -> (result: Result<(), Error>) {
        let bytes: Vec<u8> = vec![
            (self.year % 256) as u8,
            (self.year / 256) as u8,
            self.month,
            self.day,
            self.hour,
            self.minute,
            self.second,
        ];
        assert(bytes@ =~= self.layout()->0);
        writer.write_bytes(bytes.as_slice())
    }
}

impl Decode for Date {
    open spec fn parsed(rest: Seq<u8>) -> Result<(DateModel, Seq<u8>), Error> {
        if rest.len() < 7 {
            Err(Error::UnexpectedEnd)
        } else {
            Ok(
                (
                    DateModel {
                        year: (rest[0] + 256 * rest[1]) as u16,
                        month: rest[2],
                        day: rest[3],
                        hour: rest[4],
                        minute: rest[5],
                        second: rest[6],
                    },
                    rest.skip(7),
                ),
            )
        }
    }

    fn decode(reader: &mut Reader) -> (result: Result<Date, Error>) {
        let bytes = match reader.read_bytes(7) {
            Ok(bytes) => bytes,
            Err(e) => {
                return Err(e);
            },
        };
        let low: u16 = bytes[0] as u16;
        let high: u16 = bytes[1] as u16;
        Ok(
            Date {
                year: low + 256 * high,
                month: bytes[2],
                day: bytes[3],
                hour: bytes[4],
                minute: bytes[5],
                second: bytes[6],
            },
        )
    }
}

/// A date that was written is read back, and what follows it is left.
pub proof fn lemma_date_round_trip(date: Date, tail: Seq<u8>)
    ensures
        date.layout() matches Some(bytes) && Date::parsed(bytes + tail) == Ok::<
            (DateModel, Seq<u8>),
            Error,
        >((date@, tail)),
{
    let bytes = date.layout()->0;
    assert((bytes + tail).skip(7) =~= tail);
    let year = date@.year as int;
    assert((year % 256) + 256 * (year / 256) == year);
}

/// A date-time of the `chrono` crate, without a time zone.
#[verifier::external_type_specification]
#[verifier::external_body]
pub struct ExNaiveDateTime(chrono::NaiveDateTime);

/// `chrono::Local::now`, taken as the local wall-clock time through
/// `DateTime::naive_local`. Nothing is claimed of the moment it gives.
#[verifier::external_body]
fn local_now() -> (moment: chrono::NaiveDateTime) {
    chrono::Local::now().naive_local()
}

/// `Datelike::year` of `chrono`. Nothing is claimed of the year.
#[verifier::external_body]
fn year_of(moment: &chrono::NaiveDateTime) -> (year: i32) {
    moment.year()
}

/// `Datelike::month` of `chrono`: the month number, from 1 to 12.
#[verifier::external_body]
fn month_of(moment: &chrono::NaiveDateTime) -> (month: u32)
    ensures
        1 <= month <= 12,
{
    moment.month()
}

/// `Datelike::day` of `chrono`: the day of the month, from 1 to 31.
#[verifier::external_body]
fn day_of(moment: &chrono::NaiveDateTime) -> (day: u32)
    ensures
        1 <= day <= 31,
{
    moment.day()
}

/// `Timelike::hour` of `chrono`: the hour, from 0 to 23.
#[verifier::external_body]
fn hour_of(moment: &chrono::NaiveDateTime) -> (hour: u32)
    ensures
        hour <= 23,
{
    moment.hour()
}

/// `Timelike::minute` of `chrono`: the minute, from 0 to 59.
#[verifier::external_body]
fn minute_of(moment: &chrono::NaiveDateTime) -> (minute: u32)
    ensures
        minute <= 59,
{
    moment.minute()
}

/// `Timelike::second` of `chrono`: the second, from 0 to 59.
#[verifier::external_body]
fn second_of(moment: &chrono::NaiveDateTime) -> (second: u32)
    ensures
        second <= 59,
{
    moment.second()
}

impl Date {
    /// The date of these parts, taken as they are.
    pub fn new(year: Year, month: Month, day: Day, hour: Hour, minute: Minute, second: Second) -> (date: Date)
        ensures
            date@ == (DateModel { year, month, day, hour, minute, second }),
    {
        Date { year, month, day, hour, minute, second }
    }

    /// The date that a clock reading stands for: the year is kept modulo
    /// 65536, the other parts as they are.
    pub fn from_clock(year: i32, month: u32, day: u32, hour: u32, minute: u32, second: u32) -> (date: Date)
        requires
            month <= 255,
            day <= 255,
            hour <= 255,
            minute <= 255,
            second <= 255,
        ensures
            date@ == (DateModel {
                year: (year as int % 65536) as u16,
                month: month as u8,
                day: day as u8,
                hour: hour as u8,
                minute: minute as u8,
                second: second as u8,
            }),
    {
        let wrapped: i32 = year % 65536;
        let low: i32 = if wrapped < 0 {
            wrapped + 65536
        } else {
            wrapped
        };
        Date {
            year: low as u16,
            month: month as u8,
            day: day as u8,
            hour: hour as u8,
            minute: minute as u8,
            second: second as u8,
        }
    }

    /// The local time of the moment of the call.
    pub fn now() -> (date: Date)
        ensures
            1 <= date@.month <= 12,
            1 <= date@.day <= 31,
            date@.hour <= 23,
            date@.minute <= 59,
            date@.second <= 59,
    {
        let moment = local_now();
        Date::from_clock(
            year_of(&moment),
            month_of(&moment),
            day_of(&moment),
            hour_of(&moment),
            minute_of(&moment),
            second_of(&moment),
        )
    }

    pub fn year(&self) -> (year: Year)
        ensures
            year == self@.year,
    {
        self.year
    }

    pub fn month(&self) -> (month: Month)
        ensures
            month == self@.month,
    {
        self.month
    }

    pub fn day(&self) -> (day: Day)
        ensures
            day == self@.day,
    {
        self.day
    }

    pub fn hour(&self) -> (hour: Hour)
        ensures
            hour == self@.hour,
    {
        self.hour
    }

    pub fn minute(&self) -> (minute: Minute)
        ensures
            minute == self@.minute,
    {
        self.minute
    }

    pub fn second(&self) -> (second: Second)
        ensures
            second == self@.second,
    {
        self.second
    }

    /// Whether two dates have the same parts.
    pub fn same(&self, other: &Date) -> (same: bool)
        ensures
            same == (self@ == other@),
    {
        self.year == other.year && self.month == other.month && self.day == other.day
            && self.hour == other.hour && self.minute == other.minute && self.second
            == other.second
    }
}

} // verus!
