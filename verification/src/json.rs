//! Serialization of a decoded telegram into a flat JSON object with
//! fixed key names, one key per recognised line, in telegram-line
//! order.  Lines that carry no representable value (`EquipmentId`,
//! `PowerFailureLog`, `UnknownObis`) are omitted.
//!
//! Field values are integers or an internally produced timestamp
//! string, never arbitrary text, so no escaping is needed.

use vstd::prelude::*;
use vstd::string::StringExecFns;

use crate::types::{Line, LineV, Phase, Telegram, TelegramV, Timestamp};

verus! {

/// Decimal digit as a character.
pub open spec fn char_of_digit(d: nat) -> char {
    if d == 0 {
        '0'
    } else if d == 1 {
        '1'
    } else if d == 2 {
        '2'
    } else if d == 3 {
        '3'
    } else if d == 4 {
        '4'
    } else if d == 5 {
        '5'
    } else if d == 6 {
        '6'
    } else if d == 7 {
        '7'
    } else if d == 8 {
        '8'
    } else {
        '9'
    }
}

/// Decimal rendering of `n`, most significant digit first, no leading
/// zeros (a single `0` for zero).
pub open spec fn dec_chars(n: nat) -> Seq<char>
    decreases n,
{
    if n < 10 {
        seq![char_of_digit(n)]
    } else {
        dec_chars(n / 10).push(char_of_digit(n % 10))
    }
}

/// Two-digit zero-padded rendering of `n % 100`.
pub open spec fn pad2_chars(n: nat) -> Seq<char> {
    seq![char_of_digit((n / 10) % 10), char_of_digit(n % 10)]
}

/// Four-digit zero-padded rendering of `n % 10000`.
pub open spec fn pad4_chars(n: nat) -> Seq<char> {
    seq![
        char_of_digit((n / 1000) % 10),
        char_of_digit((n / 100) % 10),
        char_of_digit((n / 10) % 10),
        char_of_digit(n % 10),
    ]
}

pub open spec fn phase_chars(ph: Phase) -> Seq<char> {
    match ph {
        Phase::L1 => "l1"@,
        Phase::L2 => "l2"@,
        Phase::L3 => "l3"@,
    }
}

/// The ISO-8601-like timestamp text, with the DST marker mapped to a
/// fixed UTC offset.
pub open spec fn timestamp_chars(ts: Timestamp) -> Seq<char> {
    pad4_chars(ts.year as nat) + "-"@ + pad2_chars(ts.month as nat) + "-"@ + pad2_chars(
        ts.day as nat,
    ) + "T"@ + pad2_chars(ts.hour as nat) + ":"@ + pad2_chars(ts.minute as nat) + ":"@
        + pad2_chars(ts.second as nat) + (if ts.dst {
        "+02:00"@
    } else {
        "+01:00"@
    })
}

/// The serialized text of one line's field, or `None` for the
/// variants that are omitted from the output.
pub open spec fn field_chars(l: LineV) -> Option<Seq<char>> {
    match l {
        LineV::Version(v) => Some("\"dsmr_version\": "@ + dec_chars(v as nat)),
        LineV::Timestamp(ts) => Some(
            "\"timestamp\": \""@ + timestamp_chars(ts) + "\""@,
        ),
        LineV::Consumed(t, e) => Some(
            "\"tariff_"@ + dec_chars(t as nat) + "_consumed\": "@ + dec_chars(e as nat),
        ),
        LineV::Produced(t, e) => Some(
            "\"tariff_"@ + dec_chars(t as nat) + "_produced\": "@ + dec_chars(e as nat),
        ),
        LineV::ActiveTariff(t) => Some("\"active_tariff\": "@ + dec_chars(t as nat)),
        LineV::TotalConsuming(p) => Some("\"total_consuming\": "@ + dec_chars(p as nat)),
        LineV::TotalProducing(p) => Some("\"total_producing\": "@ + dec_chars(p as nat)),
        LineV::PowerFailures(c) => Some("\"power_failures\": "@ + dec_chars(c as nat)),
        LineV::LongPowerFailures(c) => Some(
            "\"long_power_failures\": "@ + dec_chars(c as nat),
        ),
        LineV::VoltageSags(c) => Some("\"voltage_sags\": "@ + dec_chars(c as nat)),
        LineV::VoltageSwells(c) => Some("\"voltage_swells\": "@ + dec_chars(c as nat)),
        LineV::Current(ph, a) => Some(
            "\""@ + phase_chars(ph) + "_current\": "@ + dec_chars(a as nat),
        ),
        LineV::Consuming(ph, p) => Some(
            "\""@ + phase_chars(ph) + "_consuming\": "@ + dec_chars(p as nat),
        ),
        LineV::Producing(ph, p) => Some(
            "\""@ + phase_chars(ph) + "_producing\": "@ + dec_chars(p as nat),
        ),
        LineV::EquipmentId => None,
        LineV::PowerFailureLog => None,
        LineV::UnknownObis(_) => None,
    }
}

/// The comma-separated fields of `lines[i..]`; `first` says whether
/// no field has been emitted yet.
pub open spec fn json_fields(lines: Seq<LineV>, i: int, first: bool) -> Seq<char>
    decreases lines.len() - i,
{
    if i < 0 || i >= lines.len() {
        Seq::empty()
    } else {
        match field_chars(lines[i]) {
            None => json_fields(lines, i + 1, first),
            Some(f) => (if first {
                f
            } else {
                ","@ + f
            }) + json_fields(lines, i + 1, false),
        }
    }
}

/// The whole serialized telegram.
pub open spec fn telegram_json(t: TelegramV) -> Seq<char> {
    "{"@ + json_fields(t.lines, 0, true) + "}"@
}

/// One decimal digit as text.
fn digit_str(d: u8) -> (r: &'static str)
    requires
        d < 10,
    ensures
        r@ == seq![char_of_digit(d as nat)],
{
    if d == 0 {
        proof {
            reveal_strlit("0");
        }
        "0"
    } else if d == 1 {
        proof {
            reveal_strlit("1");
        }
        "1"
    } else if d == 2 {
        proof {
            reveal_strlit("2");
        }
        "2"
    } else if d == 3 {
        proof {
            reveal_strlit("3");
        }
        "3"
    } else if d == 4 {
        proof {
            reveal_strlit("4");
        }
        "4"
    } else if d == 5 {
        proof {
            reveal_strlit("5");
        }
        "5"
    } else if d == 6 {
        proof {
            reveal_strlit("6");
        }
        "6"
    } else if d == 7 {
        proof {
            reveal_strlit("7");
        }
        "7"
    } else if d == 8 {
        proof {
            reveal_strlit("8");
        }
        "8"
    } else {
        proof {
            reveal_strlit("9");
        }
        "9"
    }
}

/// Appends the decimal rendering of `n`.
fn push_dec(out: &mut String, n: u32)
    ensures
        final(out)@ == old(out)@ + dec_chars(n as nat),
    decreases n,
{
    if n >= 10 {
        push_dec(out, n / 10);
        let d: u8 = (n % 10) as u8;
        out.append(digit_str(d));
        proof {
            assert(dec_chars(n as nat) =~= dec_chars(n as nat / 10) + seq![
                char_of_digit(n as nat % 10),
            ]);
        }
    } else {
        out.append(digit_str(n as u8));
        proof {
            assert(dec_chars(n as nat) =~= seq![char_of_digit(n as nat)]);
        }
    }
}

/// Appends a two-digit zero-padded rendering.
fn push_pad2(out: &mut String, n: u8)
    ensures
        final(out)@ == old(out)@ + pad2_chars(n as nat),
{
    out.append(digit_str((n / 10) % 10));
    out.append(digit_str(n % 10));
    proof {
        assert(pad2_chars(n as nat) =~= seq![char_of_digit((n as nat / 10) % 10)] + seq![
            char_of_digit(n as nat % 10),
        ]);
    }
}

/// Appends a four-digit zero-padded rendering.
fn push_pad4(out: &mut String, n: u16)
    ensures
        final(out)@ == old(out)@ + pad4_chars(n as nat),
{
    out.append(digit_str(((n / 1000) % 10) as u8));
    out.append(digit_str(((n / 100) % 10) as u8));
    out.append(digit_str(((n / 10) % 10) as u8));
    out.append(digit_str((n % 10) as u8));
    proof {
        assert(pad4_chars(n as nat) =~= seq![char_of_digit((n as nat / 1000) % 10)] + seq![
            char_of_digit((n as nat / 100) % 10),
        ] + seq![char_of_digit((n as nat / 10) % 10)] + seq![char_of_digit(n as nat % 10)]);
    }
}

/// Appends the timestamp text.
fn push_timestamp(out: &mut String, ts: &Timestamp)
    ensures
        final(out)@ == old(out)@ + timestamp_chars(*ts),
{
    push_pad4(out, ts.year);
    out.append("-");
    push_pad2(out, ts.month);
    out.append("-");
    push_pad2(out, ts.day);
    out.append("T");
    push_pad2(out, ts.hour);
    out.append(":");
    push_pad2(out, ts.minute);
    out.append(":");
    push_pad2(out, ts.second);
    if ts.dst {
        out.append("+02:00");
    } else {
        out.append("+01:00");
    }
    proof {
        assert(final(out)@ =~= old(out)@ + timestamp_chars(*ts));
    }
}

/// Appends one phase name.
fn push_phase(out: &mut String, ph: &Phase)
    ensures
        final(out)@ == old(out)@ + phase_chars(*ph),
{
    match ph {
        Phase::L1 => out.append("l1"),
        Phase::L2 => out.append("l2"),
        Phase::L3 => out.append("l3"),
    }
}

/// Appends one line's field, preceded by a comma unless it is the
/// first; returns whether the output is still waiting for its first
/// field.
#[verifier::rlimit(100)]
fn push_field(out: &mut String, l: &Line, first: bool) -> (nf: bool)
    ensures
        ({
            match field_chars(l@) {
                None => final(out)@ == old(out)@ && nf == first,
                Some(f) => {
                    &&& final(out)@ == old(out)@ + (if first {
                        f
                    } else {
                        ","@ + f
                    })
                    &&& nf == false
                },
            }
        }),
{
    match l {
        Line::EquipmentId => first,
        Line::PowerFailureLog => first,
        Line::UnknownObis(_) => first,
        Line::Version(v) => {
            if !first {
                out.append(",");
            }
            out.append("\"dsmr_version\": ");
            push_dec(out, *v as u32);
            proof {
                assert(final(out)@ =~= old(out)@ + (if first {
                    field_chars(l@)->Some_0
                } else {
                    ","@ + field_chars(l@)->Some_0
                }));
            }
            false
        },
        Line::Timestamp(ts) => {
            if !first {
                out.append(",");
            }
            out.append("\"timestamp\": \"");
            push_timestamp(out, ts);
            out.append("\"");
            proof {
                assert(final(out)@ =~= old(out)@ + (if first {
                    field_chars(l@)->Some_0
                } else {
                    ","@ + field_chars(l@)->Some_0
                }));
            }
            false
        },
        Line::Consumed(t, e) => {
            if !first {
                out.append(",");
            }
            out.append("\"tariff_");
            push_dec(out, *t as u32);
            out.append("_consumed\": ");
            push_dec(out, *e);
            proof {
                assert(final(out)@ =~= old(out)@ + (if first {
                    field_chars(l@)->Some_0
                } else {
                    ","@ + field_chars(l@)->Some_0
                }));
            }
            false
        },
        Line::Produced(t, e) => {
            if !first {
                out.append(",");
            }
            out.append("\"tariff_");
            push_dec(out, *t as u32);
            out.append("_produced\": ");
            push_dec(out, *e);
            proof {
                assert(final(out)@ =~= old(out)@ + (if first {
                    field_chars(l@)->Some_0
                } else {
                    ","@ + field_chars(l@)->Some_0
                }));
            }
            false
        },
        Line::ActiveTariff(t) => {
            if !first {
                out.append(",");
            }
            out.append("\"active_tariff\": ");
            push_dec(out, *t as u32);
            proof {
                assert(final(out)@ =~= old(out)@ + (if first {
                    field_chars(l@)->Some_0
                } else {
                    ","@ + field_chars(l@)->Some_0
                }));
            }
            false
        },
        Line::TotalConsuming(p) => {
            if !first {
                out.append(",");
            }
            out.append("\"total_consuming\": ");
            push_dec(out, *p);
            proof {
                assert(final(out)@ =~= old(out)@ + (if first {
                    field_chars(l@)->Some_0
                } else {
                    ","@ + field_chars(l@)->Some_0
                }));
            }
            false
        },
        Line::TotalProducing(p) => {
            if !first {
                out.append(",");
            }
            out.append("\"total_producing\": ");
            push_dec(out, *p);
            proof {
                assert(final(out)@ =~= old(out)@ + (if first {
                    field_chars(l@)->Some_0
                } else {
                    ","@ + field_chars(l@)->Some_0
                }));
            }
            false
        },
        Line::PowerFailures(c) => {
            if !first {
                out.append(",");
            }
            out.append("\"power_failures\": ");
            push_dec(out, *c);
            proof {
                assert(final(out)@ =~= old(out)@ + (if first {
                    field_chars(l@)->Some_0
                } else {
                    ","@ + field_chars(l@)->Some_0
                }));
            }
            false
        },
        Line::LongPowerFailures(c) => {
            if !first {
                out.append(",");
            }
            out.append("\"long_power_failures\": ");
            push_dec(out, *c);
            proof {
                assert(final(out)@ =~= old(out)@ + (if first {
                    field_chars(l@)->Some_0
                } else {
                    ","@ + field_chars(l@)->Some_0
                }));
            }
            false
        },
        Line::VoltageSags(c) => {
            if !first {
                out.append(",");
            }
            out.append("\"voltage_sags\": ");
            push_dec(out, *c);
            proof {
                assert(final(out)@ =~= old(out)@ + (if first {
                    field_chars(l@)->Some_0
                } else {
                    ","@ + field_chars(l@)->Some_0
                }));
            }
            false
        },
        Line::VoltageSwells(c) => {
            if !first {
                out.append(",");
            }
            out.append("\"voltage_swells\": ");
            push_dec(out, *c);
            proof {
                assert(final(out)@ =~= old(out)@ + (if first {
                    field_chars(l@)->Some_0
                } else {
                    ","@ + field_chars(l@)->Some_0
                }));
            }
            false
        },
        Line::Current(ph, a) => {
            if !first {
                out.append(",");
            }
            out.append("\"");
            push_phase(out, ph);
            out.append("_current\": ");
            push_dec(out, *a);
            proof {
                assert(final(out)@ =~= old(out)@ + (if first {
                    field_chars(l@)->Some_0
                } else {
                    ","@ + field_chars(l@)->Some_0
                }));
            }
            false
        },
        Line::Consuming(ph, p) => {
            if !first {
                out.append(",");
            }
            out.append("\"");
            push_phase(out, ph);
            out.append("_consuming\": ");
            push_dec(out, *p);
            proof {
                assert(final(out)@ =~= old(out)@ + (if first {
                    field_chars(l@)->Some_0
                } else {
                    ","@ + field_chars(l@)->Some_0
                }));
            }
            false
        },
        Line::Producing(ph, p) => {
            if !first {
                out.append(",");
            }
            out.append("\"");
            push_phase(out, ph);
            out.append("_producing\": ");
            push_dec(out, *p);
            proof {
                assert(final(out)@ =~= old(out)@ + (if first {
                    field_chars(l@)->Some_0
                } else {
                    ","@ + field_chars(l@)->Some_0
                }));
            }
            false
        },
    }
}

impl Telegram {
    /// Serializes the telegram as a flat JSON object, one key per
    /// recognised line in telegram-line order.
    pub fn serialize(&self) -> (out: String)
        ensures
            out@ == telegram_json(self@),
    {
        let mut out: String = String::new();
        out.append("{");
        let ghost lines = self@.lines;
        let mut first: bool = true;
        let mut i: usize = 0;
        while i < self.lines.len()
            invariant
                i <= self.lines.len(),
                lines == self@.lines,
                lines.len() == self.lines.len(),
                out@ + json_fields(lines, i as int, first) == "{"@ + json_fields(
                    lines,
                    0,
                    true,
                ),
            decreases self.lines.len() - i,
        {
            proof {
                assert(lines[i as int] == self.lines@[i as int]@);
            }
            let nf = push_field(&mut out, &self.lines[i], first);
            first = nf;
            i = i + 1;
        }
        out.append("}");
        proof {
            assert(out@ =~= telegram_json(self@));
        }
        out
    }
}

} // verus!
