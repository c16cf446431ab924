//! The line protocol encoder: one line per measurement,
//!
//! ```text
//! <series>,mac=<AA:BB:CC:DD:EE:FF>,name=<name> <field>=<value>[,...] <unix-nanos>
//! ```
//!
//! with the fields in a fixed order and only those that the measurement
//! carries.

use crate::decimal::{decimal_text, push_decimal, Decimal};
use crate::mac_address::address_text;
use crate::mac_address::MacAddress;
use crate::measurement::{no_readings, Measurement};
use crate::output::OutputFormatter;
use crate::text::{chars_of, digits, push_unsigned};
use vstd::prelude::*;
use vstd::string::StringExecFns;

verus! {

/// The value of a field: a number, or a text.
#[derive(Debug, Clone, PartialEq)]
pub enum FieldValue {
    Float(Decimal),
    String(String),
}

/// The text of a field value: a number as plain decimal text, a text
/// between double quotes.
pub open spec fn field_value_text(v: FieldValue) -> Seq<char> {
    match v {
        FieldValue::Float(d) => d.text(),
        FieldValue::String(s) => seq!['"'] + s@ + seq!['"'],
    }
}

impl FieldValue {
    /// The value as it stands in a line.
    pub fn to_string(&self) -> (s: String)
        ensures
            s@ == field_value_text(*self),
    {
        match self {
            FieldValue::Float(d) => d.to_string(),
            FieldValue::String(t) => {
                let mut s = String::new();
                s.push('"');
                s.append(t.as_str());
                s.push('"');
                assert(s@ =~= seq!['"'] + t@ + seq!['"']);
                s
            },
        }
    }
}

/// Whether a character of a series name (`tag` false) or of a tag value
/// (`tag` true) needs a backslash before it: a comma and a space in both, an
/// equals sign in a tag value.
pub open spec fn needs_escape(c: char, tag: bool) -> bool {
    c == ',' || c == ' ' || (tag && c == '=')
}

/// `s` with a backslash before each character that needs one.
pub open spec fn escaped(s: Seq<char>, tag: bool) -> Seq<char>
    decreases s.len(),
{
    if s.len() == 0 {
        Seq::empty()
    } else if needs_escape(s.last(), tag) {
        escaped(s.drop_last(), tag).push('\\').push(s.last())
    } else {
        escaped(s.drop_last(), tag).push(s.last())
    }
}

/// Appends `s` to `out` with a backslash before each character that needs
/// one.
pub fn push_escaped(out: &mut String, s: &str, tag: bool)
    ensures
        final(out)@ == old(out)@ + escaped(s@, tag),
{
    let cs = chars_of(s);
    let mut i: usize = 0;
    while i < cs.len()
        invariant
            i <= cs.len(),
            cs@ == s@,
            out@ == old(out)@ + escaped(cs@.take(i as int), tag),
        decreases cs.len() - i,
    {
        let c = cs[i];
        proof {
            assert(cs@.take(i + 1).drop_last() == cs@.take(i as int));
            assert(cs@.take(i + 1).last() == c);
        }
        if c == ',' || c == ' ' || (tag && c == '=') {
            out.push('\\');
        }
        out.push(c);
        i += 1;
    }
    assert(cs@.take(cs.len() as int) == cs@);
}

/// One row of the table that the encoder goes through: the field's name,
/// its value if the measurement carries it, and the number of decimal places
/// by which the value is shifted down on the way out.
#[derive(Debug, Clone, Copy)]
pub struct Field {
    pub name: &'static str,
    pub value: Option<Decimal>,
    pub shift: u8,
}

/// A row of the table with its name as a sequence of characters.
pub struct FieldView {
    pub name: Seq<char>,
    pub value: Option<Decimal>,
    pub shift: u8,
}

impl View for Field {
    type V = FieldView;

    open spec fn view(&self) -> FieldView {
        FieldView { name: self.name@, value: self.value, shift: self.shift }
    }
}

/// The rows of a vector of fields.
pub open spec fn rows(fields: Seq<Field>) -> Seq<FieldView> {
    Seq::new(fields.len(), |i: int| fields[i]@)
}

/// Pascals are written as kilopascals: three decimal places down.
pub const PASCALS_TO_KILOPASCALS: u8 = 3;

/// A whole number as a value of the table.
pub open spec fn whole_value(n: Option<int>) -> Option<Decimal> {
    match n {
        Some(v) => Some(Decimal { units: v as i64, scale: 0 }),
        None => None,
    }
}

/// A row whose value is written as it is held.
pub open spec fn plain(name: Seq<char>, value: Option<Decimal>) -> FieldView {
    FieldView { name, value, shift: 0 }
}

/// One axis of the acceleration.
pub open spec fn axis(a: Option<(Decimal, Decimal, Decimal)>, i: int) -> Option<Decimal> {
    match a {
        Some((x, y, z)) => Some(if i == 0 { x } else if i == 1 { y } else { z }),
        None => None,
    }
}

/// The table of a measurement, in the order in which fields are written.
/// Pressure is held in pascals and written in kilopascals; every other
/// reading is written in the unit in which it is held.
pub open spec fn field_table(m: Measurement) -> Seq<FieldView> {
    seq![
        plain("temperature"@, m.temperature),
        plain("humidity"@, m.humidity),
        FieldView { name: "pressure"@, value: m.pressure, shift: PASCALS_TO_KILOPASCALS },
        plain("battery_potential"@, m.battery),
        plain("tx_power"@, whole_value(match m.tx_power { Some(v) => Some(v as int), None => None })),
        plain(
            "movement_counter"@,
            whole_value(match m.movement_counter { Some(v) => Some(v as int), None => None }),
        ),
        plain("pm2_5"@, m.pm2_5),
        plain("co2"@, m.co2),
        plain("voc_index"@, m.voc_index),
        plain("nox_index"@, m.nox_index),
        plain("luminosity"@, m.luminosity),
        plain(
            "measurement_sequence_number"@,
            whole_value(match m.measurement_sequence { Some(v) => Some(v as int), None => None }),
        ),
        plain("acceleration_x"@, axis(m.acceleration, 0)),
        plain("acceleration_y"@, axis(m.acceleration, 1)),
        plain("acceleration_z"@, axis(m.acceleration, 2)),
    ]
}

/// `name=value` for a row that has the value `d`.
pub open spec fn field_text(f: FieldView, d: Decimal) -> Seq<char> {
    f.name + seq!['='] + decimal_text(d.units as int, (d.scale + f.shift) as nat)
}

/// The rows that have a value, each as `name=value`, with commas between.
pub open spec fn fields_text(table: Seq<FieldView>) -> Seq<char>
    decreases table.len(),
{
    if table.len() == 0 {
        Seq::empty()
    } else {
        let before = fields_text(table.drop_last());
        match table.last().value {
            None => before,
            Some(d) => if before.len() > 0 {
                before + seq![','] + field_text(table.last(), d)
            } else {
                field_text(table.last(), d)
            },
        }
    }
}

/// The timestamp of a line: nanoseconds from the Unix epoch, zero for a time
/// before it.
pub open spec fn timestamp_text(timestamp: i128) -> Seq<char> {
    digits((if timestamp < 0 { 0 } else { timestamp as int }) as nat)
}

/// The line of the measurement `m` in the series `series` for a device
/// known as `name`. No line break ends it.
pub open spec fn line_text(series: Seq<char>, m: Measurement, name: Seq<char>) -> Seq<char> {
    escaped(series, false) + ",mac="@ + address_text(m.mac@) + ",name="@ + escaped(name, true)
        + seq![' '] + fields_text(field_table(m)) + seq![' '] + timestamp_text(m.timestamp)
}

/// A text in which nothing needs a backslash is written as it is.
pub proof fn lemma_escaped_plain(s: Seq<char>, tag: bool)
    requires
        forall|i: int| 0 <= i < s.len() ==> !needs_escape(#[trigger] s[i], tag),
    ensures
        escaped(s, tag) == s,
    decreases s.len(),
{
    if s.len() > 0 {
        assert forall|i: int| 0 <= i < s.drop_last().len() implies !needs_escape(
            #[trigger] s.drop_last()[i],
            tag,
        ) by {
            assert(s.drop_last()[i] == s[i]);
        }
        lemma_escaped_plain(s.drop_last(), tag);
        assert(s.drop_last().push(s.last()) == s);
    }
}

/// In an escaped text every comma and space, and in a tag value every
/// equals sign, has a backslash before it.
pub proof fn lemma_escaped_has_backslashes(s: Seq<char>, tag: bool)
    ensures
        forall|i: int|
            0 <= i < escaped(s, tag).len() && needs_escape(#[trigger] escaped(s, tag)[i], tag)
                ==> i > 0 && escaped(s, tag)[i - 1] == '\\',
    decreases s.len(),
{
    if s.len() > 0 {
        lemma_escaped_has_backslashes(s.drop_last(), tag);
        let before = escaped(s.drop_last(), tag);
        let all = escaped(s, tag);
        assert forall|i: int| 0 <= i < all.len() && needs_escape(#[trigger] all[i], tag) implies i
            > 0 && all[i - 1] == '\\' by {
            if i < before.len() {
                assert(all[i] == before[i]);
                assert(all[i - 1] == before[i - 1]);
            }
        }
    }
}

/// A table without values gives no field text.
pub proof fn lemma_no_values_no_text(table: Seq<FieldView>)
    requires
        forall|i: int| 0 <= i < table.len() ==> (#[trigger] table[i]).value is None,
    ensures
        fields_text(table) == Seq::<char>::empty(),
    decreases table.len(),
{
    if table.len() > 0 {
        assert forall|i: int| 0 <= i < table.drop_last().len() implies (
        #[trigger] table.drop_last()[i]).value is None by {
            assert(table.drop_last()[i] == table[i]);
        }
        lemma_no_values_no_text(table.drop_last());
    }
}

/// A measurement without readings still gives a line: the series, both
/// tags, a space, no field, a space and the timestamp.
pub proof fn lemma_line_without_readings(
    series: Seq<char>,
    mac: MacAddress,
    timestamp: i128,
    name: Seq<char>,
)
    ensures
        line_text(series, no_readings(mac, timestamp), name) == escaped(series, false) + ",mac="@
            + address_text(mac@) + ",name="@ + escaped(name, true) + seq![' ', ' ']
            + timestamp_text(timestamp),
{
    lemma_no_values_no_text(field_table(no_readings(mac, timestamp)));
    let head = escaped(series, false) + ",mac="@ + address_text(mac@) + ",name="@ + escaped(
        name,
        true,
    );
    assert(head + seq![' '] + Seq::<char>::empty() + seq![' '] == head + seq![' ', ' ']);
}

fn whole_i8(n: Option<i8>) -> (r: Option<Decimal>)
    ensures
        r == whole_value(match n { Some(v) => Some(v as int), None => None }),
{
    match n {
        Some(v) => Some(Decimal::new(v as i64, 0)),
        None => None,
    }
}

fn whole_u32(n: Option<u32>) -> (r: Option<Decimal>)
    ensures
        r == whole_value(match n { Some(v) => Some(v as int), None => None }),
{
    match n {
        Some(v) => Some(Decimal::new(v as i64, 0)),
        None => None,
    }
}

fn axis_of(a: Option<(Decimal, Decimal, Decimal)>, i: u8) -> (r: Option<Decimal>)
    ensures
        r == axis(a, i as int),
{
    match a {
        Some((x, y, z)) => Some(if i == 0 { x } else if i == 1 { y } else { z }),
        None => None,
    }
}

/// The table of a measurement: every field that a line can hold, in the
/// order in which they are written, with the value where the measurement
/// carries it.
pub fn field_set(m: &Measurement) -> (fields: Vec<Field>)
    ensures
        rows(fields@) == field_table(*m),
{
    let mut fields: Vec<Field> = Vec::with_capacity(15);
    fields.push(Field { name: "temperature", value: m.temperature, shift: 0 });
    fields.push(Field { name: "humidity", value: m.humidity, shift: 0 });
    fields.push(Field { name: "pressure", value: m.pressure, shift: PASCALS_TO_KILOPASCALS });
    fields.push(Field { name: "battery_potential", value: m.battery, shift: 0 });
    fields.push(Field { name: "tx_power", value: whole_i8(m.tx_power), shift: 0 });
    fields.push(Field { name: "movement_counter", value: whole_u32(m.movement_counter), shift: 0 });
    fields.push(Field { name: "pm2_5", value: m.pm2_5, shift: 0 });
    fields.push(Field { name: "co2", value: m.co2, shift: 0 });
    fields.push(Field { name: "voc_index", value: m.voc_index, shift: 0 });
    fields.push(Field { name: "nox_index", value: m.nox_index, shift: 0 });
    fields.push(Field { name: "luminosity", value: m.luminosity, shift: 0 });
    fields.push(
        Field {
            name: "measurement_sequence_number",
            value: whole_u32(m.measurement_sequence),
            shift: 0,
        },
    );
    fields.push(Field { name: "acceleration_x", value: axis_of(m.acceleration, 0), shift: 0 });
    fields.push(Field { name: "acceleration_y", value: axis_of(m.acceleration, 1), shift: 0 });
    fields.push(Field { name: "acceleration_z", value: axis_of(m.acceleration, 2), shift: 0 });
    assert(rows(fields@) =~= field_table(*m));
    fields
}

/// Appends the fields that have a value to `out`, each as `name=value`,
/// with commas between.
pub fn push_fields(out: &mut String, fields: &Vec<Field>)
    ensures
        final(out)@ == old(out)@ + fields_text(rows(fields@)),
{
    let ghost table = rows(fields@);
    let mut any = false;
    let mut i: usize = 0;
    while i < fields.len()
        invariant
            i <= fields.len(),
            table == rows(fields@),
            any == (fields_text(table.take(i as int)).len() > 0),
            out@ == old(out)@ + fields_text(table.take(i as int)),
        decreases fields.len() - i,
    {
        let f = &fields[i];
        proof {
            assert(table.take(i + 1).drop_last() == table.take(i as int));
            assert(table.take(i + 1).last() == f@);
        }
        match f.value {
            Some(d) => {
                let ghost before = out@;
                if any {
                    out.push(',');
                }
                out.append(f.name);
                out.push('=');
                push_decimal(out, d.units, d.scale as u16 + f.shift as u16);
                any = true;
                assert(out@ == before + (if fields_text(table.take(i as int)).len() > 0 {
                    seq![',']
                } else {
                    Seq::<char>::empty()
                }) + field_text(f@, d));
                assert(field_text(f@, d).len() > 0);
            },
            None => {},
        }
        i += 1;
    }
    assert(table.take(fields.len() as int) == table);
}

/// Writes measurements as lines of one series.
pub struct InfluxDbFormatter {
    measurement_name: String,
}

impl InfluxDbFormatter {
    /// The name of the series.
    pub closed spec fn series(&self) -> Seq<char> {
        self.measurement_name@
    }

    /// A formatter for the series `measurement_name`.
    pub fn new(measurement_name: String) -> (f: Self)
        ensures
            f.series() == measurement_name@,
    {
        InfluxDbFormatter { measurement_name }
    }

    /// The line of `measurement` for a device known as `name`: the series
    /// name, the address and the name as tags, the fields that the
    /// measurement carries, and the timestamp.
    pub fn format_line(&self, measurement: &Measurement, name: &str) -> (line: String)
        ensures
            line@ == line_text(self.series(), *measurement, name@),
    {
        let mut out = String::new();
        push_escaped(&mut out, self.measurement_name.as_str(), false);
        out.append(",mac=");
        let mac = measurement.mac.to_string();
        out.append(mac.as_str());
        out.append(",name=");
        push_escaped(&mut out, name, true);
        out.push(' ');
        let fields = field_set(measurement);
        push_fields(&mut out, &fields);
        out.push(' ');
        let nanos: u128 = if measurement.timestamp < 0 {
            0
        } else {
            measurement.timestamp as u128
        };
        push_unsigned(&mut out, nanos);
        assert(out@ =~= line_text(self.series(), *measurement, name@));
        out
    }
}

impl OutputFormatter for InfluxDbFormatter {
    fn format(&self, measurement: &Measurement, name: &str) -> (line: String)
        ensures
            line@ == line_text(self.series(), *measurement, name@),
    {
        self.format_line(measurement, name)
    }
}

} // verus!
