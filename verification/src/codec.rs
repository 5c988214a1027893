//! The persisted settings document: a length-prefixed text encoding of the
//! settings and the install manifest, with a verified decoder.
//!
//! Numbers are written as decimal digits closed by `:`; a string is its
//! character count followed by exactly that many characters, so no character
//! of a filename or credential needs escaping.  Decoding any document that
//! `encode_settings` produced yields the same settings back; decoding
//! rejects anything else.

use vstd::prelude::*;

use crate::assoc::kv_wf;
use crate::settings::{ApiProvider, AppTheme, EntryModel, ManifestModel, SettingsModel};
use crate::text::push_char;

verus! {

/// The largest number the document may carry: what a `u64` holds.
pub open spec fn num_cap() -> nat {
    0xffff_ffff_ffff_ffff as nat
}

/// A decimal digit.
pub open spec fn is_digit(c: char) -> bool {
    48 <= c as u32 && c as u32 <= 57
}

/// The numeric value of a digit character.
pub open spec fn char_val(c: char) -> nat {
    (c as u32 - 48) as nat
}

/// The digit character for a value below ten.
pub open spec fn digit_char(d: nat) -> char {
    if d == 0 {
        '0'
    } else if d == 1 {
        '1'
    } else if d == 2 {
        '2'
    } else if d == 3 {
        '3'
    } else if d == 4 {
        '4'
    } else if d == 5 {
        '5'
    } else if d == 6 {
        '6'
    } else if d == 7 {
        '7'
    } else if d == 8 {
        '8'
    } else {
        '9'
    }
}

/// The decimal numeral of `n`, most significant digit first.
pub open spec fn dec_digits(n: nat) -> Seq<char>
    decreases n,
{
    if n < 10 {
        seq![digit_char(n)]
    } else {
        dec_digits(n / 10).push(digit_char(n % 10))
    }
}

/// Ten to the `k`.
pub open spec fn pow10(k: nat) -> nat
    decreases k,
{
    if k == 0 {
        1
    } else {
        10 * pow10((k - 1) as nat)
    }
}

pub proof fn lemma_digit_char_val(d: nat)
    requires
        d < 10,
    ensures
        is_digit(digit_char(d)),
        char_val(digit_char(d)) == d,
        digit_char(d) != ':',
{
}

/// Reading digits up to the closing `:`, with the value accumulated so far;
/// a value that would not fit a `u64` is rejected.
pub open spec fn dec_num_rec(s: Seq<char>, acc: nat) -> Option<(nat, Seq<char>)>
    decreases s.len(),
{
    if s.len() == 0 {
        None
    } else if s[0] == ':' {
        Some((acc, s.drop_first()))
    } else if is_digit(s[0]) {
        if acc * 10 + char_val(s[0]) > num_cap() {
            None
        } else {
            dec_num_rec(s.drop_first(), acc * 10 + char_val(s[0]))
        }
    } else {
        None
    }
}

/// Reading one number from the front of the document.
pub open spec fn dec_num(s: Seq<char>) -> Option<(nat, Seq<char>)> {
    dec_num_rec(s, 0)
}

/// The numeral of `n` written by the encoder, with its closing `:`.
pub open spec fn enc_num(n: nat) -> Seq<char> {
    dec_digits(n).push(':')
}

/// Consuming the numeral of `n` turns accumulator `acc` into
/// `acc * pow10(len) + n` and continues with the tail.
pub proof fn lemma_dec_num_append(n: nat, t: Seq<char>, acc: nat)
    requires
        acc * pow10(dec_digits(n).len()) + n <= num_cap(),
    ensures
        dec_num_rec(dec_digits(n) + t, acc) == dec_num_rec(
            t,
            acc * pow10(dec_digits(n).len()) + n,
        ),
    decreases n,
{
    if n < 10 {
        lemma_digit_char_val(n);
        let s = dec_digits(n) + t;
        assert(s[0] == digit_char(n));
        assert(s.drop_first() =~= t);
        assert(pow10(0) == 1);
        assert(pow10(1) == 10);
        assert(acc * 10 + n <= num_cap());
        assert(dec_num_rec(s, acc) == dec_num_rec(t, acc * 10 + n));
    } else {
        let q = n / 10;
        let r = n % 10;
        let lq = dec_digits(q).len();
        let p = pow10(lq);
        lemma_pow10_pos(lq);
        assert(10 * q + r == n) by {
            vstd::arithmetic::div_mod::lemma_fundamental_div_mod(n as int, 10);
        }
        assert(dec_digits(n) =~= dec_digits(q).push(digit_char(r)));
        assert(dec_digits(n).len() == lq + 1);
        assert(pow10(lq + 1) == 10 * p);
        assert(dec_digits(n) + t =~= dec_digits(q) + (seq![digit_char(r)] + t));
        assert((acc * (10 * p) + n) == ((acc * p + q) * 10 + r)) by (nonlinear_arith)
            requires
                10 * q + r == n,
        ;
        assert(acc * p + q <= num_cap()) by (nonlinear_arith)
            requires
                acc * (10 * p) + n <= num_cap(),
                10 * q + r == n,
                p >= 1,
                r < 10,
                0 <= q,
                0 <= acc,
        ;
        lemma_dec_num_append(q, seq![digit_char(r)] + t, acc);
        let s2 = seq![digit_char(r)] + t;
        let acc2 = acc * p + q;
        lemma_digit_char_val(r);
        assert(s2[0] == digit_char(r));
        assert(s2.drop_first() =~= t);
        assert(acc2 * 10 + r <= num_cap());
        assert(dec_num_rec(s2, acc2) == dec_num_rec(t, acc2 * 10 + r));
    }
}

pub proof fn lemma_pow10_pos(k: nat)
    ensures
        pow10(k) >= 1,
    decreases k,
{
    if k > 0 {
        lemma_pow10_pos((k - 1) as nat);
    }
}

/// Round trip for numbers: the encoder's numeral parses back to the same
/// value, leaving exactly the tail.
pub proof fn lemma_num_round(n: nat, rest: Seq<char>)
    requires
        n <= num_cap(),
    ensures
        dec_num(enc_num(n) + rest) == Some((n, rest)),
{
    lemma_pow10_pos(dec_digits(n).len());
    assert(enc_num(n) + rest =~= dec_digits(n) + (seq![':'] + rest));
    assert(0 * pow10(dec_digits(n).len()) + n <= num_cap());
    lemma_dec_num_append(n, seq![':'] + rest, 0);
    let s2 = seq![':'] + rest;
    assert(s2[0] == ':');
    assert(s2.drop_first() =~= rest);
    assert(0 * pow10(dec_digits(n).len()) + n == n);
}

/// The decimal numeral of `n` as a string.
pub fn u64_to_string(n: u64) -> (r: String)
    ensures
        r@ == dec_digits(n as nat),
{
    let mut digits: Vec<char> = Vec::new();
    let mut cur: u64 = n;
    loop
        invariant_except_break
            (digits@.len() == 0 && cur == n) || (digits@.len() > 0 && cur > 0 && dec_digits(
                n as nat,
            ) == dec_digits(cur as nat) + digits@.reverse()),
        ensures
            dec_digits(n as nat) == digits@.reverse(),
        decreases cur,
    {
        let d: u64 = cur % 10;
        let c = digit_to_char(d);
        let ghost before = digits@;
        let prev = cur;
        digits.push(c);
        cur = cur / 10;
        proof {
            assert(10 * (prev as nat / 10) + (prev as nat % 10) == prev as nat) by {
                vstd::arithmetic::div_mod::lemma_fundamental_div_mod(prev as int, 10);
            }
            assert(digits@.reverse() =~= seq![c] + before.reverse());
            if prev < 10 {
                assert(dec_digits(prev as nat) =~= seq![c]);
                if before.len() == 0 {
                    assert(dec_digits(n as nat) =~= digits@.reverse());
                } else {
                    assert(dec_digits(n as nat) =~= dec_digits(prev as nat) + before.reverse());
                    assert(dec_digits(n as nat) =~= digits@.reverse());
                }
            } else {
                assert(dec_digits(prev as nat) =~= dec_digits(cur as nat).push(c));
                assert(dec_digits(cur as nat).push(c) =~= dec_digits(cur as nat) + seq![c]);
                if before.len() == 0 {
                    assert(dec_digits(n as nat) =~= dec_digits(cur as nat) + digits@.reverse());
                } else {
                    assert(dec_digits(n as nat) =~= dec_digits(prev as nat) + before.reverse());
                    assert(dec_digits(prev as nat) + before.reverse() =~= dec_digits(cur as nat)
                        + (seq![c] + before.reverse()));
                    assert(dec_digits(n as nat) =~= dec_digits(cur as nat) + digits@.reverse());
                }
            }
        }
        if cur == 0 {
            break;
        }
    }
    let k = digits.len();
    let mut out = String::new();
    let mut i: usize = k;
    while i > 0
        invariant
            k == digits@.len(),
            0 <= i <= k,
            dec_digits(n as nat) == digits@.reverse(),
            out@ == digits@.reverse().take((k - i) as int),
        decreases i,
    {
        i = i - 1;
        push_char(&mut out, digits[i]);
        proof {
            assert(digits@.reverse()[(k - i - 1) as int] == digits@[i as int]);
            assert(out@ =~= digits@.reverse().take((k - i) as int));
        }
    }
    proof {
        assert(digits@.reverse().take(k as int) =~= digits@.reverse());
    }
    out
}

/// Write the decimal numeral of `n` and the closing `:` onto `out`.
pub fn write_num(out: &mut String, n: u64)
    ensures
        final(out)@ == old(out)@ + enc_num(n as nat),
{
    let numeral = u64_to_string(n);
    out.append(numeral.as_str());
    push_char(out, ':');
    proof {
        assert(out@ =~= old(out)@ + enc_num(n as nat));
    }
}

/// The digit character for a value below ten.
pub fn digit_to_char(d: u64) -> (r: char)
    requires
        d < 10,
    ensures
        r == digit_char(d as nat),
{
    if d == 0 {
        '0'
    } else if d == 1 {
        '1'
    } else if d == 2 {
        '2'
    } else if d == 3 {
        '3'
    } else if d == 4 {
        '4'
    } else if d == 5 {
        '5'
    } else if d == 6 {
        '6'
    } else if d == 7 {
        '7'
    } else if d == 8 {
        '8'
    } else {
        '9'
    }
}

/// Read one number from `s` starting at `pos`.
pub fn read_num(s: &str, pos: usize) -> (r: Option<(u64, usize)>)
    requires
        pos <= s@.len(),
    ensures
        match r {
            Some(v) => {
                &&& dec_num(s@.skip(pos as int)) == Some((v.0 as nat, s@.skip(v.1 as int)))
                &&& pos < v.1 <= s@.len()
            },
            None => dec_num(s@.skip(pos as int)) is None,
        },
{
    let n = s.unicode_len();
    let mut i: usize = pos;
    let mut acc: u64 = 0;
    loop
        invariant
            n == s@.len(),
            pos <= i <= n,
            dec_num(s@.skip(pos as int)) == dec_num_rec(s@.skip(i as int), acc as nat),
        decreases n - i,
    {
        if i >= n {
            return None;
        }
        let c = s.get_char(i);
        proof {
            assert(s@.skip(i as int)[0] == s@[i as int]);
            assert(s@.skip(i as int).drop_first() =~= s@.skip(i as int + 1));
        }
        if c == ':' {
            return Some((acc, i + 1));
        }
        let u = c as u32;
        if !(48 <= u && u <= 57) {
            return None;
        }
        let d: u64 = (u - 48) as u64;
        match acc.checked_mul(10) {
            Some(m) => {
                match m.checked_add(d) {
                    Some(v) => {
                        acc = v;
                        i = i + 1;
                    },
                    None => {
                        return None;
                    },
                }
            },
            None => {
                proof {
                    assert(acc as nat * 10 + char_val(s@[i as int]) > num_cap());
                }
                return None;
            },
        }
    }
}


/// A string on the wire: its character count, then its characters.
pub open spec fn enc_str(s: Seq<char>) -> Seq<char> {
    enc_num(s.len()) + s
}

/// An optional string: `0` for absent, `1` and the string for present.
pub open spec fn enc_opt_str(o: Option<Seq<char>>) -> Seq<char> {
    match o {
        None => seq!['0'],
        Some(s) => seq!['1'] + enc_str(s),
    }
}

/// The provider tag.
pub open spec fn enc_provider(p: ApiProvider) -> Seq<char> {
    match p {
        ApiProvider::CurseForge => seq!['c'],
        ApiProvider::Modtale => seq!['m'],
    }
}

/// The theme tag.
pub open spec fn enc_theme(t: AppTheme) -> Seq<char> {
    match t {
        AppTheme::Dark => seq!['d'],
        AppTheme::Light => seq!['l'],
    }
}

/// One manifest pair: the filename, the four entry strings, the provider.
pub open spec fn enc_entry(p: (Seq<char>, EntryModel)) -> Seq<char> {
    enc_str(p.0) + enc_str(p.1.mod_id) + enc_str(p.1.mod_name) + enc_str(p.1.file_id) + enc_str(
        p.1.version_name,
    ) + enc_provider(p.1.api_provider)
}

/// The manifest pairs, one after the other.
pub open spec fn enc_entries(m: ManifestModel) -> Seq<char>
    decreases m.len(),
{
    if m.len() == 0 {
        Seq::empty()
    } else {
        enc_entry(m[0]) + enc_entries(m.drop_first())
    }
}

/// The whole document.
pub open spec fn enc_settings_model(s: SettingsModel) -> Seq<char> {
    enc_opt_str(s.api_key) + enc_opt_str(s.game_folder) + enc_theme(s.theme) + enc_provider(
        s.api_provider,
    ) + enc_num(s.installed_mods.len()) + enc_entries(s.installed_mods)
}

/// Whether every number the document for `s` would carry fits a `u64`.
pub open spec fn settings_model_bounded(s: SettingsModel) -> bool {
    &&& (s.api_key matches Some(k) ==> k.len() <= num_cap())
    &&& (s.game_folder matches Some(f) ==> f.len() <= num_cap())
    &&& s.installed_mods.len() <= num_cap()
    &&& forall|i: int|
        0 <= i < s.installed_mods.len() ==> entry_bounded(#[trigger] s.installed_mods[i])
}

/// Whether one manifest pair's strings fit the wire format.
pub open spec fn entry_bounded(p: (Seq<char>, EntryModel)) -> bool {
    &&& p.0.len() <= num_cap()
    &&& p.1.mod_id.len() <= num_cap()
    &&& p.1.mod_name.len() <= num_cap()
    &&& p.1.file_id.len() <= num_cap()
    &&& p.1.version_name.len() <= num_cap()
}

/// Reading one string.
pub open spec fn dec_str(s: Seq<char>) -> Option<(Seq<char>, Seq<char>)> {
    match dec_num(s) {
        None => None,
        Some((n, rest)) => if rest.len() >= n {
            Some((rest.take(n as int), rest.skip(n as int)))
        } else {
            None
        },
    }
}

/// Reading one optional string.
pub open spec fn dec_opt_str(s: Seq<char>) -> Option<(Option<Seq<char>>, Seq<char>)> {
    if s.len() == 0 {
        None
    } else if s[0] == '0' {
        Some((None, s.drop_first()))
    } else if s[0] == '1' {
        match dec_str(s.drop_first()) {
            None => None,
            Some((v, rest)) => Some((Some(v), rest)),
        }
    } else {
        None
    }
}

/// Reading the provider tag.
pub open spec fn dec_provider(s: Seq<char>) -> Option<(ApiProvider, Seq<char>)> {
    if s.len() == 0 {
        None
    } else if s[0] == 'c' {
        Some((ApiProvider::CurseForge, s.drop_first()))
    } else if s[0] == 'm' {
        Some((ApiProvider::Modtale, s.drop_first()))
    } else {
        None
    }
}

/// Reading the theme tag.
pub open spec fn dec_theme(s: Seq<char>) -> Option<(AppTheme, Seq<char>)> {
    if s.len() == 0 {
        None
    } else if s[0] == 'd' {
        Some((AppTheme::Dark, s.drop_first()))
    } else if s[0] == 'l' {
        Some((AppTheme::Light, s.drop_first()))
    } else {
        None
    }
}

/// Reading one manifest pair.
pub open spec fn dec_entry(s: Seq<char>) -> Option<((Seq<char>, EntryModel), Seq<char>)> {
    match dec_str(s) {
        None => None,
        Some((name, s1)) => match dec_str(s1) {
            None => None,
            Some((mod_id, s2)) => match dec_str(s2) {
                None => None,
                Some((mod_name, s3)) => match dec_str(s3) {
                    None => None,
                    Some((file_id, s4)) => match dec_str(s4) {
                        None => None,
                        Some((version_name, s5)) => match dec_provider(s5) {
                            None => None,
                            Some((api_provider, s6)) => Some(
                                (
                                    (
                                        name,
                                        EntryModel {
                                            mod_id,
                                            mod_name,
                                            file_id,
                                            version_name,
                                            api_provider,
                                        },
                                    ),
                                    s6,
                                ),
                            ),
                        },
                    },
                },
            },
        },
    }
}

/// Reading `k` manifest pairs.
pub open spec fn dec_entries(s: Seq<char>, k: nat) -> Option<(ManifestModel, Seq<char>)>
    decreases k,
{
    if k == 0 {
        Some((Seq::empty(), s))
    } else {
        match dec_entry(s) {
            None => None,
            Some((p, rest)) => match dec_entries(rest, (k - 1) as nat) {
                None => None,
                Some((m, rest2)) => Some((seq![p] + m, rest2)),
            },
        }
    }
}

/// Reading the whole document.  A document with trailing characters or with
/// a repeated manifest filename is rejected.
pub open spec fn dec_settings(s: Seq<char>) -> Option<SettingsModel> {
    match dec_opt_str(s) {
        None => None,
        Some((api_key, s1)) => match dec_opt_str(s1) {
            None => None,
            Some((game_folder, s2)) => match dec_theme(s2) {
                None => None,
                Some((theme, s3)) => match dec_provider(s3) {
                    None => None,
                    Some((api_provider, s4)) => match dec_num(s4) {
                        None => None,
                        Some((k, s5)) => match dec_entries(s5, k) {
                            None => None,
                            Some((installed_mods, s6)) => if s6.len() == 0 && kv_wf(
                                installed_mods,
                            ) {
                                Some(
                                    SettingsModel {
                                        api_key,
                                        game_folder,
                                        theme,
                                        api_provider,
                                        installed_mods,
                                    },
                                )
                            } else {
                                None
                            },
                        },
                    },
                },
            },
        },
    }
}

/// Round trip for strings.
pub proof fn lemma_str_round(s: Seq<char>, rest: Seq<char>)
    requires
        s.len() <= num_cap(),
    ensures
        dec_str(enc_str(s) + rest) == Some((s, rest)),
{
    assert(enc_str(s) + rest =~= enc_num(s.len()) + (s + rest));
    lemma_num_round(s.len(), s + rest);
    assert((s + rest).take(s.len() as int) =~= s);
    assert((s + rest).skip(s.len() as int) =~= rest);
}

/// Round trip for optional strings.
pub proof fn lemma_opt_str_round(o: Option<Seq<char>>, rest: Seq<char>)
    requires
        o matches Some(s) ==> s.len() <= num_cap(),
    ensures
        dec_opt_str(enc_opt_str(o) + rest) == Some((o, rest)),
{
    match o {
        None => {
            let w = enc_opt_str(o) + rest;
            assert(w[0] == '0');
            assert(w.drop_first() =~= rest);
        },
        Some(s) => {
            let w = enc_opt_str(o) + rest;
            assert(w[0] == '1');
            assert(w.drop_first() =~= enc_str(s) + rest);
            lemma_str_round(s, rest);
        },
    }
}

/// Round trip for the provider tag.
pub proof fn lemma_provider_round(p: ApiProvider, rest: Seq<char>)
    ensures
        dec_provider(enc_provider(p) + rest) == Some((p, rest)),
{
    let w = enc_provider(p) + rest;
    assert(w.drop_first() =~= rest);
}

/// Round trip for the theme tag.
pub proof fn lemma_theme_round(t: AppTheme, rest: Seq<char>)
    ensures
        dec_theme(enc_theme(t) + rest) == Some((t, rest)),
{
    let w = enc_theme(t) + rest;
    assert(w.drop_first() =~= rest);
}

/// Round trip for one manifest pair.
pub proof fn lemma_entry_round(p: (Seq<char>, EntryModel), rest: Seq<char>)
    requires
        entry_bounded(p),
    ensures
        dec_entry(enc_entry(p) + rest) == Some((p, rest)),
{
    let t5 = enc_provider(p.1.api_provider) + rest;
    let t4 = enc_str(p.1.version_name) + t5;
    let t3 = enc_str(p.1.file_id) + t4;
    let t2 = enc_str(p.1.mod_name) + t3;
    let t1 = enc_str(p.1.mod_id) + t2;
    assert(enc_entry(p) + rest =~= enc_str(p.0) + t1);
    lemma_str_round(p.0, t1);
    assert(t1 =~= enc_str(p.1.mod_id) + t2);
    lemma_str_round(p.1.mod_id, t2);
    lemma_str_round(p.1.mod_name, t3);
    lemma_str_round(p.1.file_id, t4);
    lemma_str_round(p.1.version_name, t5);
    lemma_provider_round(p.1.api_provider, rest);
}

/// Round trip for the manifest pairs.
pub proof fn lemma_entries_round(m: ManifestModel, rest: Seq<char>)
    requires
        forall|i: int| 0 <= i < m.len() ==> entry_bounded(#[trigger] m[i]),
    ensures
        dec_entries(enc_entries(m) + rest, m.len()) == Some((m, rest)),
    decreases m.len(),
{
    if m.len() == 0 {
        assert(enc_entries(m) + rest =~= rest);
    } else {
        let tail = m.drop_first();
        assert(forall|i: int| 0 <= i < tail.len() ==> #[trigger] tail[i] == m[i + 1]);
        assert(enc_entries(m) + rest =~= enc_entry(m[0]) + (enc_entries(tail) + rest));
        lemma_entry_round(m[0], enc_entries(tail) + rest);
        lemma_entries_round(tail, rest);
        assert(seq![m[0]] + tail =~= m);
    }
}

/// Round trip for the whole document: decoding what the encoder wrote for
/// valid settings yields the same settings, field for field and entry for
/// entry.
pub proof fn lemma_settings_round_trip(s: SettingsModel)
    requires
        settings_model_bounded(s),
        kv_wf(s.installed_mods),
    ensures
        dec_settings(enc_settings_model(s)) == Some(s),
{
    let m = s.installed_mods;
    let w5 = enc_entries(m);
    let w4 = enc_num(m.len()) + w5;
    let w3 = enc_provider(s.api_provider) + w4;
    let w2 = enc_theme(s.theme) + w3;
    let w1 = enc_opt_str(s.game_folder) + w2;
    assert(enc_settings_model(s) =~= enc_opt_str(s.api_key) + w1);
    lemma_opt_str_round(s.api_key, w1);
    assert(w1 =~= enc_opt_str(s.game_folder) + w2);
    lemma_opt_str_round(s.game_folder, w2);
    lemma_theme_round(s.theme, w3);
    lemma_provider_round(s.api_provider, w4);
    lemma_num_round(m.len(), w5);
    assert(w5 =~= enc_entries(m) + Seq::<char>::empty());
    lemma_entries_round(m, Seq::empty());
    assert(dec_settings(enc_settings_model(s)) =~= Some(s));
}


/// Appending one pair to the manifest appends its encoding.
pub proof fn lemma_enc_entries_push(m: ManifestModel, x: (Seq<char>, EntryModel))
    ensures
        enc_entries(m.push(x)) == enc_entries(m) + enc_entry(x),
    decreases m.len(),
{
    if m.len() == 0 {
        assert(m.push(x)[0] == x);
        assert(m.push(x).drop_first() =~= m);
        assert(enc_entries(m.push(x)) =~= enc_entries(m) + enc_entry(x));
    } else {
        lemma_enc_entries_push(m.drop_first(), x);
        assert(m.push(x)[0] == m[0]);
        assert(m.push(x).drop_first() =~= m.drop_first().push(x));
        assert(enc_entries(m.push(x)) =~= enc_entries(m) + enc_entry(x));
    }
}

/// Write one string field onto `out`.
pub fn write_str_field(out: &mut String, s: &str)
    ensures
        final(out)@ == old(out)@ + enc_str(s@),
{
    let n = s.unicode_len();
    write_num(out, n as u64);
    out.append(s);
    proof {
        assert(out@ =~= old(out)@ + enc_str(s@));
    }
}

/// Write one optional string field onto `out`.
pub fn write_opt_str_field(out: &mut String, o: &Option<String>)
    ensures
        final(out)@ == old(out)@ + enc_opt_str(match o {
            Some(s) => Some(s@),
            None => None,
        }),
{
    match o {
        None => {
            push_char(out, '0');
            proof {
                assert(out@ =~= old(out)@ + enc_opt_str(None));
            }
        },
        Some(s) => {
            push_char(out, '1');
            write_str_field(out, s.as_str());
            proof {
                assert(out@ =~= old(out)@ + enc_opt_str(Some(s@)));
            }
        },
    }
}

/// Write the provider tag onto `out`.
pub fn write_provider(out: &mut String, p: ApiProvider)
    ensures
        final(out)@ == old(out)@ + enc_provider(p),
{
    match p {
        ApiProvider::CurseForge => push_char(out, 'c'),
        ApiProvider::Modtale => push_char(out, 'm'),
    }
    proof {
        assert(out@ =~= old(out)@ + enc_provider(p));
    }
}

/// Write the theme tag onto `out`.
pub fn write_theme(out: &mut String, t: AppTheme)
    ensures
        final(out)@ == old(out)@ + enc_theme(t),
{
    match t {
        AppTheme::Dark => push_char(out, 'd'),
        AppTheme::Light => push_char(out, 'l'),
    }
    proof {
        assert(out@ =~= old(out)@ + enc_theme(t));
    }
}

/// The document for the given settings.
#[verifier::rlimit(60)]
pub fn encode_settings(settings: &crate::settings::AppSettings) -> (r: String)
    ensures
        r@ == enc_settings_model(settings@),
{
    let mut out = String::new();
    write_opt_str_field(&mut out, &settings.api_key);
    write_opt_str_field(&mut out, &settings.game_folder);
    write_theme(&mut out, settings.theme);
    write_provider(&mut out, settings.api_provider);
    let n = settings.installed_mods.len();
    write_num(&mut out, n as u64);
    let ghost head = out@;
    let ghost m = settings@.installed_mods;
    let mut i: usize = 0;
    while i < n
        invariant
            n == settings.installed_mods.len(),
            0 <= i <= n,
            m == settings@.installed_mods,
            out@ == head + enc_entries(m.take(i as int)),
        decreases n - i,
    {
        let ghost before = out@;
        let pair = &settings.installed_mods[i];
        write_str_field(&mut out, pair.0.as_str());
        write_str_field(&mut out, pair.1.mod_id.as_str());
        write_str_field(&mut out, pair.1.mod_name.as_str());
        write_str_field(&mut out, pair.1.file_id.as_str());
        write_str_field(&mut out, pair.1.version_name.as_str());
        write_provider(&mut out, pair.1.api_provider);
        proof {
            assert(out@ =~= before + enc_entry(m[i as int]));
            lemma_enc_entries_push(m.take(i as int), m[i as int]);
            assert(m.take(i + 1) =~= m.take(i as int).push(m[i as int]));
            assert(out@ =~= head + enc_entries(m.take(i + 1)));
        }
        i += 1;
    }
    proof {
        assert(m.take(n as int) =~= m);
        assert(out@ =~= enc_settings_model(settings@));
    }
    out
}

/// Read one string field from `s` starting at `pos`.
pub fn read_str_field(s: &str, pos: usize) -> (r: Option<(String, usize)>)
    requires
        pos <= s@.len(),
    ensures
        match r {
            Some(v) => {
                &&& dec_str(s@.skip(pos as int)) == Some((v.0@, s@.skip(v.1 as int)))
                &&& pos <= v.1 <= s@.len()
            },
            None => dec_str(s@.skip(pos as int)) is None,
        },
{
    match read_num(s, pos) {
        None => None,
        Some((n, p2)) => {
            let total = s.unicode_len();
            if n > (total - p2) as u64 {
                return None;
            }
            let len_u = n as usize;
            let end = p2 + len_u;
            let sub = s.substring_char(p2, end);
            proof {
                assert(s@.skip(p2 as int).take(n as int) =~= s@.subrange(
                    p2 as int,
                    end as int,
                ));
                assert(s@.skip(p2 as int).skip(n as int) =~= s@.skip(end as int));
            }
            Some((sub.to_owned(), end))
        },
    }
}

/// Read one optional string field from `s` starting at `pos`.
pub fn read_opt_str_field(s: &str, pos: usize) -> (r: Option<(Option<String>, usize)>)
    requires
        pos <= s@.len(),
    ensures
        match r {
            Some(v) => {
                &&& dec_opt_str(s@.skip(pos as int)) == Some(
                    (
                        match v.0 {
                            Some(ref t) => Some(t@),
                            None => None,
                        },
                        s@.skip(v.1 as int),
                    ),
                )
                &&& pos <= v.1 <= s@.len()
            },
            None => dec_opt_str(s@.skip(pos as int)) is None,
        },
{
    let total = s.unicode_len();
    if pos >= total {
        return None;
    }
    let c = s.get_char(pos);
    proof {
        assert(s@.skip(pos as int)[0] == s@[pos as int]);
        assert(s@.skip(pos as int).drop_first() =~= s@.skip(pos as int + 1));
    }
    if c == '0' {
        Some((None, pos + 1))
    } else if c == '1' {
        match read_str_field(s, pos + 1) {
            None => None,
            Some((v, p2)) => Some((Some(v), p2)),
        }
    } else {
        None
    }
}

/// Read the provider tag from `s` at `pos`.
pub fn read_provider(s: &str, pos: usize) -> (r: Option<(ApiProvider, usize)>)
    requires
        pos <= s@.len(),
    ensures
        match r {
            Some(v) => {
                &&& dec_provider(s@.skip(pos as int)) == Some((v.0, s@.skip(v.1 as int)))
                &&& pos < v.1 <= s@.len()
            },
            None => dec_provider(s@.skip(pos as int)) is None,
        },
{
    let total = s.unicode_len();
    if pos >= total {
        return None;
    }
    let c = s.get_char(pos);
    proof {
        assert(s@.skip(pos as int)[0] == s@[pos as int]);
        assert(s@.skip(pos as int).drop_first() =~= s@.skip(pos as int + 1));
    }
    if c == 'c' {
        Some((ApiProvider::CurseForge, pos + 1))
    } else if c == 'm' {
        Some((ApiProvider::Modtale, pos + 1))
    } else {
        None
    }
}

/// Read the theme tag from `s` at `pos`.
pub fn read_theme(s: &str, pos: usize) -> (r: Option<(AppTheme, usize)>)
    requires
        pos <= s@.len(),
    ensures
        match r {
            Some(v) => {
                &&& dec_theme(s@.skip(pos as int)) == Some((v.0, s@.skip(v.1 as int)))
                &&& pos < v.1 <= s@.len()
            },
            None => dec_theme(s@.skip(pos as int)) is None,
        },
{
    let total = s.unicode_len();
    if pos >= total {
        return None;
    }
    let c = s.get_char(pos);
    proof {
        assert(s@.skip(pos as int)[0] == s@[pos as int]);
        assert(s@.skip(pos as int).drop_first() =~= s@.skip(pos as int + 1));
    }
    if c == 'd' {
        Some((AppTheme::Dark, pos + 1))
    } else if c == 'l' {
        Some((AppTheme::Light, pos + 1))
    } else {
        None
    }
}

/// Read one manifest pair from `s` at `pos`.
pub fn read_entry(s: &str, pos: usize) -> (r: Option<
    ((String, crate::settings::InstalledModEntry), usize),
>)
    requires
        pos <= s@.len(),
    ensures
        match r {
            Some(v) => {
                &&& dec_entry(s@.skip(pos as int)) == Some(
                    ((v.0.0@, v.0.1@), s@.skip(v.1 as int)),
                )
                &&& pos <= v.1 <= s@.len()
            },
            None => dec_entry(s@.skip(pos as int)) is None,
        },
{
    let name = match read_str_field(s, pos) {
        None => {
            return None;
        },
        Some(v) => v,
    };
    let mod_id = match read_str_field(s, name.1) {
        None => {
            return None;
        },
        Some(v) => v,
    };
    let mod_name = match read_str_field(s, mod_id.1) {
        None => {
            return None;
        },
        Some(v) => v,
    };
    let file_id = match read_str_field(s, mod_name.1) {
        None => {
            return None;
        },
        Some(v) => v,
    };
    let version_name = match read_str_field(s, file_id.1) {
        None => {
            return None;
        },
        Some(v) => v,
    };
    let provider = match read_provider(s, version_name.1) {
        None => {
            return None;
        },
        Some(v) => v,
    };
    let entry = crate::settings::InstalledModEntry {
        mod_id: mod_id.0,
        mod_name: mod_name.0,
        file_id: file_id.0,
        version_name: version_name.0,
        api_provider: provider.0,
    };
    Some(((name.0, entry), provider.1))
}

/// Read `k` manifest pairs from `s` at `pos`.
pub fn read_entries(s: &str, pos: usize, k: u64) -> (r: Option<
    (Vec<(String, crate::settings::InstalledModEntry)>, usize),
>)
    requires
        pos <= s@.len(),
    ensures
        match r {
            Some(v) => {
                &&& dec_entries(s@.skip(pos as int), k as nat) == Some(
                    (
                        v.0@.map_values(
                            |p: (String, crate::settings::InstalledModEntry)| (p.0@, p.1@),
                        ),
                        s@.skip(v.1 as int),
                    ),
                )
                &&& pos <= v.1 <= s@.len()
            },
            None => dec_entries(s@.skip(pos as int), k as nat) is None,
        },
    decreases k,
{
    if k == 0 {
        let v: Vec<(String, crate::settings::InstalledModEntry)> = Vec::new();
        proof {
            assert(v@.map_values(
                |p: (String, crate::settings::InstalledModEntry)| (p.0@, p.1@),
            ) =~= Seq::<(Seq<char>, EntryModel)>::empty());
        }
        return Some((v, pos));
    }
    match read_entry(s, pos) {
        None => None,
        Some((pair, p2)) => {
            match read_entries(s, p2, k - 1) {
                None => None,
                Some((mut v, p3)) => {
                    let ghost tail_view = v@.map_values(
                        |p: (String, crate::settings::InstalledModEntry)| (p.0@, p.1@),
                    );
                    let ghost pv = (pair.0@, pair.1@);
                    v.insert(0, pair);
                    proof {
                        assert(v@.map_values(
                            |p: (String, crate::settings::InstalledModEntry)| (p.0@, p.1@),
                        ) =~= seq![pv] + tail_view);
                    }
                    Some((v, p3))
                },
            }
        },
    }
}

/// Whether the filenames in `v` are pairwise distinct.
pub fn names_unique(v: &Vec<(String, crate::settings::InstalledModEntry)>) -> (r: bool)
    ensures
        r == kv_wf(v@.map_values(
            |p: (String, crate::settings::InstalledModEntry)| (p.0@, p.1@),
        )),
{
    let ghost w = v@.map_values(|p: (String, crate::settings::InstalledModEntry)| (p.0@, p.1@));
    let n = v.len();
    let mut i: usize = 0;
    while i < n
        invariant
            n == v.len(),
            0 <= i <= n,
            w == v@.map_values(|p: (String, crate::settings::InstalledModEntry)| (p.0@, p.1@)),
            forall|a: int, b: int| 0 <= a < b < i ==> w[a].0 != w[b].0,
        decreases n - i,
    {
        let mut j: usize = 0;
        while j < i
            invariant
                n == v.len(),
                0 <= j <= i < n,
                w == v@.map_values(
                    |p: (String, crate::settings::InstalledModEntry)| (p.0@, p.1@),
                ),
                forall|a: int| 0 <= a < j ==> w[a].0 != w[i as int].0,
            decreases i - j,
        {
            if crate::settings::string_eq(&v[j].0, &v[i].0) {
                proof {
                    assert(w[j as int].0 == w[i as int].0);
                }
                return false;
            }
            j += 1;
        }
        i += 1;
    }
    true
}

/// Decode a whole document.  Anything the encoder did not produce — a
/// malformed field, trailing characters, a repeated filename — is rejected.
pub fn decode_settings(s: &str) -> (r: Option<crate::settings::AppSettings>)
    ensures
        match r {
            Some(st) => dec_settings(s@) == Some(st@) && st.wf(),
            None => dec_settings(s@) is None,
        },
{
    proof {
        assert(s@.skip(0) =~= s@);
    }
    let api_key = match read_opt_str_field(s, 0) {
        None => {
            return None;
        },
        Some(v) => v,
    };
    let game_folder = match read_opt_str_field(s, api_key.1) {
        None => {
            return None;
        },
        Some(v) => v,
    };
    let theme = match read_theme(s, game_folder.1) {
        None => {
            return None;
        },
        Some(v) => v,
    };
    let provider = match read_provider(s, theme.1) {
        None => {
            return None;
        },
        Some(v) => v,
    };
    let count = match read_num(s, provider.1) {
        None => {
            return None;
        },
        Some(v) => v,
    };
    let entries = match read_entries(s, count.1, count.0) {
        None => {
            return None;
        },
        Some(v) => v,
    };
    let total = s.unicode_len();
    if entries.1 != total {
        proof {
            assert(s@.skip(entries.1 as int).len() > 0);
        }
        return None;
    }
    proof {
        assert(s@.skip(entries.1 as int).len() == 0);
    }
    if !names_unique(&entries.0) {
        return None;
    }
    let st = crate::settings::AppSettings {
        api_key: api_key.0,
        game_folder: game_folder.0,
        theme: theme.0,
        api_provider: provider.0,
        installed_mods: entries.0,
    };
    proof {
        assert(st@ =~= dec_settings(s@).unwrap());
    }
    Some(st)
}

/// The settings to start from given what durable storage held: a missing or
/// undecodable document falls back to the defaults.
pub fn load_settings(text: Option<&str>) -> (r: crate::settings::AppSettings)
    ensures
        r.wf(),
        match text {
            None => r@ == crate::settings::default_settings_model(),
            Some(t) => match dec_settings(t@) {
                Some(m) => r@ == m,
                None => r@ == crate::settings::default_settings_model(),
            },
        },
{
    match text {
        None => crate::settings::AppSettings::default(),
        Some(t) => match decode_settings(t) {
            Some(st) => st,
            None => crate::settings::AppSettings::default(),
        },
    }
}

} // verus!
