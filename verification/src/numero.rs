//! Reading a whole decimal `i64` from a text, as `str::parse::<i64>` reads it:
//! an optional `+` or `-`, then one or more ASCII digits, nothing else, and a
//! value that fits.

use vstd::prelude::*;

verus! {

/// `c` is an ASCII decimal digit.
pub open spec fn eh_digito(c: char) -> bool {
    '0' <= c && c <= '9'
}

/// `s` is one or more ASCII decimal digits.
pub open spec fn so_digitos(s: Seq<char>) -> bool {
    s.len() > 0 && forall|i: int| 0 <= i < s.len() ==> eh_digito(#[trigger] s[i])
}

/// The value of the decimal digits `s`.
pub open spec fn valor_digitos(s: Seq<char>) -> int
    decreases s.len(),
{
    if s.len() == 0 {
        0
    } else {
        valor_digitos(s.drop_last()) * 10 + ((s.last() as int) - ('0' as int))
    }
}

/// The integer that `s` writes: an optional sign, then digits.
pub open spec fn inteiro_escrito(s: Seq<char>) -> Option<int> {
    if s.len() > 0 && (s[0] == '+' || s[0] == '-') {
        if so_digitos(s.drop_first()) {
            if s[0] == '-' {
                Some(-valor_digitos(s.drop_first()))
            } else {
                Some(valor_digitos(s.drop_first()))
            }
        } else {
            None
        }
    } else if so_digitos(s) {
        Some(valor_digitos(s))
    } else {
        None
    }
}

/// The `i64` that `s` writes, where it writes one that fits.
pub open spec fn i64_escrito(s: Seq<char>) -> Option<i64> {
    match inteiro_escrito(s) {
        Some(n) => if i64::MIN <= n <= i64::MAX {
            Some(n as i64)
        } else {
            None
        },
        None => None,
    }
}

proof fn lema_valor_nao_negativo(s: Seq<char>)
    requires
        forall|i: int| 0 <= i < s.len() ==> eh_digito(#[trigger] s[i]),
    ensures
        valor_digitos(s) >= 0,
    decreases s.len(),
{
    if s.len() > 0 {
        lema_valor_nao_negativo(s.drop_last());
    }
}

/// The `i64` that `s` writes, or `None` where it writes none or one that does not fit.
pub fn ler_i64(s: &str) -> (r: Option<i64>)
    ensures
        r == i64_escrito(s@),
{
    let n = s.unicode_len();
    if n == 0 {
        return None;
    }
    let primeiro = s.get_char(0);
    let negativo = primeiro == '-';
    let inicio: usize = if primeiro == '+' || primeiro == '-' { 1 } else { 0 };
    if inicio == n {
        return None;
    }
    let ghost d = s@.skip(inicio as int);
    // 2^63, the largest magnitude that an `i64` can take (when negative)
    let limite: i128 = 9223372036854775808;
    let mut acc: i128 = 0;
    let mut grande = false;
    let mut i: usize = inicio;
    assert(d.take(0) =~= Seq::<char>::empty());
    while i < n
        invariant
            n == s@.len(),
            inicio <= i <= n,
            inicio < n,
            inicio <= 1,
            (inicio == 1) == (s@[0] == '+' || s@[0] == '-'),
            negativo == (s@[0] == '-'),
            d == s@.skip(inicio as int),
            forall|j: int| 0 <= j < i - inicio ==> eh_digito(#[trigger] d[j]),
            !grande ==> acc == valor_digitos(d.take(i - inicio)),
            grande ==> valor_digitos(d.take(i - inicio)) > limite,
            0 <= acc <= limite,
            limite == 9223372036854775808,
        decreases n - i,
    {
        let c = s.get_char(i);
        if !('0' <= c && c <= '9') {
            proof {
                assert(d[i - inicio] == c);
                assert(!eh_digito(d[i - inicio]));
                if inicio == 1 {
                    assert(d =~= s@.drop_first());
                } else {
                    assert(d =~= s@);
                }
            }
            return None;
        }
        let k = i - inicio;
        proof {
            assert(d.take(k + 1).drop_last() =~= d.take(k as int));
            assert(d.take(k + 1).last() == c);
            lema_valor_nao_negativo(d.take(k as int));
        }
        let digito: i128 = (c as u32 - '0' as u32) as i128;
        if !grande {
            let novo = acc * 10 + digito;
            if novo > limite {
                grande = true;
            } else {
                acc = novo;
            }
        }
        i += 1;
    }
    assert(d.take(n - inicio) =~= d);
    if inicio == 0 {
        assert(d =~= s@);
    } else {
        assert(d =~= s@.drop_first());
    }
    if grande {
        return None;
    }
    if negativo {
        if acc == limite {
            Some(i64::MIN)
        } else {
            Some(-(acc as i64))
        }
    } else if acc == limite {
        None
    } else {
        Some(acc as i64)
    }
}

} // verus!
