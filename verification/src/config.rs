//! Manual symbol entry: one line of eight comma-separated fields,
//! `symbol,base,quote,min_qty,price_precision,qty_precision,min_notional,leverage`.
//! A malformed entry is refused whole — no field silently defaults.

use vstd::prelude::*;
use vstd::string::StrSliceExecFns;

use crate::fixed::{
    all_digits, digit_val, digits_val, is_digit, lemma_sep_index_props, parse_amount, sep_index,
    spec_parse_amount,
};
use crate::types::{CurrencyConfig, CurrencyConfigV};

verus! {

/// A manual symbol entry that could not be read: wrong field count or a
/// malformed number.
#[derive(Clone, Copy, Debug, PartialEq, Eq, Structural)]
pub struct ConfigError;

/// The comma-separated pieces of a line, in order; a line without commas is
/// one piece, and every comma starts a new piece.
pub open spec fn split_commas(s: Seq<char>) -> Seq<Seq<char>>
    decreases s.len(),
    via split_commas_decreases
{
    let d = sep_index(s, ',');
    if d >= s.len() {
        seq![s]
    } else {
        seq![s.take(d)] + split_commas(s.skip(d + 1))
    }
}

#[via_fn]
proof fn split_commas_decreases(s: Seq<char>) {
    lemma_sep_index_props(s, ',');
}

/// A plain decimal unsigned integer that fits in `u32`.
pub open spec fn spec_parse_u32(s: Seq<char>) -> Option<u32> {
    if s.len() >= 1 && all_digits(s) && digits_val(s) <= u32::MAX {
        Some(digits_val(s) as u32)
    } else {
        None
    }
}

/// Read an unsigned integer field.
fn parse_u32(s: &str) -> (r: Option<u32>)
    ensures
        r == spec_parse_u32(s@),
{
    let len = s.unicode_len();
    if len == 0 {
        return None;
    }
    let mut acc: u64 = 0;
    let mut big = false;
    let mut i: usize = 0;
    while i < len
        invariant
            0 <= i <= len,
            len == s@.len(),
            forall|j: int| 0 <= j < i ==> is_digit(#[trigger] s@[j]),
            !big ==> acc == digits_val(s@.take(i as int)) && acc <= u32::MAX as u64,
            big ==> digits_val(s@.take(i as int)) > u32::MAX as int,
        decreases len - i,
    {
        let c = s.get_char(i);
        let d = c as u32;
        if d < 48 || d > 57 {
            proof {
                assert(!is_digit(s@[i as int]));
            }
            return None;
        }
        let dv = (d - 48) as u64;
        proof {
            assert(is_digit(s@[i as int]) && digit_val(s@[i as int]) == dv as int);
            assert(s@.take(i + 1).drop_last() =~= s@.take(i as int));
            assert(s@.take(i + 1).last() == s@[i as int]);
            if big {
                assert(digits_val(s@.take(i as int)) * 10 > u32::MAX as int) by (nonlinear_arith)
                    requires
                        digits_val(s@.take(i as int)) > u32::MAX as int,
                ;
            }
        }
        if !big {
            let na = acc * 10 + dv;
            if na > u32::MAX as u64 {
                big = true;
            } else {
                acc = na;
            }
        }
        i += 1;
    }
    proof {
        assert(s@.take(len as int) =~= s@);
    }
    if big {
        None
    } else {
        Some(acc as u32)
    }
}

/// The configuration a line names: eight pieces, the numeric ones readable,
/// the amounts in micro-units.
pub open spec fn spec_parse_currency_line(s: Seq<char>) -> Option<CurrencyConfigV> {
    let fields = split_commas(s);
    if fields.len() != 8 {
        None
    } else {
        match (
            spec_parse_amount(fields[3]),
            spec_parse_u32(fields[4]),
            spec_parse_u32(fields[5]),
            spec_parse_amount(fields[6]),
            spec_parse_u32(fields[7]),
        ) {
            (Some(min_qty), Some(pp), Some(qp), Some(mn), Some(lev)) => Some(
                CurrencyConfigV {
                    symbol: fields[0],
                    base_currency: fields[1],
                    quote_currency: fields[2],
                    min_qty,
                    price_precision: pp,
                    qty_precision: qp,
                    min_notional: mn,
                    leverage: lev,
                },
            ),
            _ => None,
        }
    }
}

/// The pieces a field list stands for.
pub open spec fn views_of(fields: Seq<&str>) -> Seq<Seq<char>> {
    fields.map_values(|f: &str| f@)
}

/// Read a manual symbol entry. Text that is not plain ASCII is refused.
pub fn parse_currency_line(line: &str) -> (r: Result<CurrencyConfig, ConfigError>)
    ensures
        line.is_ascii() ==> (match r {
            Ok(c) => spec_parse_currency_line(line@) == Some(c@),
            Err(_) => spec_parse_currency_line(line@) is None,
        }),
        !line.is_ascii() ==> r is Err,
{
    if !line.is_ascii() {
        return Err(ConfigError);
    }
    let len = line.unicode_len();
    let mut fields: Vec<&str> = Vec::new();
    let mut start: usize = 0;
    let mut i: usize = 0;
    proof {
        assert(line@.skip(0) =~= line@);
        assert(views_of(fields@) =~= Seq::<Seq<char>>::empty());
        assert(views_of(fields@) + split_commas(line@.skip(0)) =~~= split_commas(line@));
    }
    while i < len
        invariant
            0 <= start <= i <= len,
            len == line@.len(),
            line.is_ascii(),
            forall|j: int| start <= j < i ==> line@[j] != ',',
            split_commas(line@) =~~= views_of(fields@) + split_commas(line@.skip(start as int)),
        decreases len - i,
    {
        if line.get_char(i) == ',' {
            let piece = line.substring_ascii(start, i);
            proof {
                let rest = line@.skip(start as int);
                lemma_sep_index_props(rest, ',');
                let d = sep_index(rest, ',');
                assert(rest[i - start] == line@[i as int]);
                if d < i - start {
                    assert(rest[d] == ',' && rest[d] == line@[d + start]);
                    assert(false);
                }
                if d > i - start {
                    assert(rest[i - start] != ',');
                    assert(false);
                }
                assert(rest.take(d) =~= piece@);
                assert(rest.skip(d + 1) =~= line@.skip(i + 1));
                assert(views_of(fields@.push(piece)) =~= views_of(fields@).push(piece@));
                assert(views_of(fields@.push(piece)) + split_commas(line@.skip(i + 1))
                    =~~= views_of(fields@) + split_commas(line@.skip(start as int)));
            }
            fields.push(piece);
            start = i + 1;
        }
        i += 1;
    }
    let piece = line.substring_ascii(start, len);
    proof {
        let rest = line@.skip(start as int);
        lemma_sep_index_props(rest, ',');
        let d = sep_index(rest, ',');
        if d < rest.len() {
            assert(rest[d] == ',' && rest[d] == line@[d + start]);
            assert(false);
        }
        assert(piece@ =~= rest);
        assert(views_of(fields@.push(piece)) =~= views_of(fields@).push(piece@));
        assert(split_commas(line@) =~~= views_of(fields@.push(piece)));
    }
    fields.push(piece);
    if fields.len() != 8 {
        return Err(ConfigError);
    }
    let min_qty = parse_amount(fields[3]);
    let price_precision = parse_u32(fields[4]);
    let qty_precision = parse_u32(fields[5]);
    let min_notional = parse_amount(fields[6]);
    let leverage = parse_u32(fields[7]);
    match (min_qty, price_precision, qty_precision, min_notional, leverage) {
        (Some(mq), Some(pp), Some(qp), Some(mn), Some(lev)) => Ok(
            CurrencyConfig::new(fields[0], fields[1], fields[2], mq, pp, qp, mn, lev),
        ),
        _ => Err(ConfigError),
    }
}

} // verus!
