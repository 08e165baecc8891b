//! Utilidades de texto: dígitos, números decimais, comparação de strings.

use vstd::prelude::*;
use vstd::string::*;
use vstd::utf8::*;
use crate::argumentos::{so_digitos, valor_decimal};

verus! {

/// Dígito hexadecimal (maiúsculo) de valor `d`, para `d < 16`.
pub open spec fn digito(d: nat) -> char {
    if d == 0 { '0' } else if d == 1 { '1' } else if d == 2 { '2' } else if d == 3 { '3' }
    else if d == 4 { '4' } else if d == 5 { '5' } else if d == 6 { '6' } else if d == 7 { '7' }
    else if d == 8 { '8' } else if d == 9 { '9' } else if d == 10 { 'A' } else if d == 11 { 'B' }
    else if d == 12 { 'C' } else if d == 13 { 'D' } else if d == 14 { 'E' } else { 'F' }
}

/// Representação decimal de `n`, sem zeros à esquerda.
pub open spec fn decimal(n: nat) -> Seq<char>
    decreases n,
{
    if n < 10 {
        seq![digito(n)]
    } else {
        decimal(n / 10).push(digito(n % 10))
    }
}

/// Representação decimal de `n` com pelo menos dois dígitos (`{:02}`).
pub open spec fn decimal_dois_digitos(n: nat) -> Seq<char> {
    if n < 10 {
        seq!['0', digito(n)]
    } else {
        decimal(n)
    }
}

/// Acrescenta um caractere ao fim de uma `String`.
///
/// Chama `String::push`; o contrato afirma que o caractere passa a ser o
/// último da string e que os anteriores não mudam.
#[verifier::external_body]
pub fn acrescentar_char(s: &mut String, c: char)
    ensures
        final(s)@ == old(s)@.push(c),
{
    s.push(c);
}

/// O caractere do dígito `d` (`0`-`9`, `A`-`F`).
pub fn char_digito(d: u64) -> (c: char)
    requires
        d < 16,
    ensures
        c == digito(d as nat),
{
    if d == 0 { '0' } else if d == 1 { '1' } else if d == 2 { '2' } else if d == 3 { '3' }
    else if d == 4 { '4' } else if d == 5 { '5' } else if d == 6 { '6' } else if d == 7 { '7' }
    else if d == 8 { '8' } else if d == 9 { '9' } else if d == 10 { 'A' } else if d == 11 { 'B' }
    else if d == 12 { 'C' } else if d == 13 { 'D' } else if d == 14 { 'E' } else { 'F' }
}

/// Acrescenta a `saida` a representação decimal de `n`.
pub fn escrever_decimal(saida: &mut String, n: u64)
    ensures
        final(saida)@ == old(saida)@ + decimal(n as nat),
    decreases n,
{
    if n >= 10 {
        escrever_decimal(saida, n / 10);
    }
    acrescentar_char(saida, char_digito(n % 10));
}

/// Acrescenta a `saida` a representação decimal de `n` com ao menos dois dígitos.
pub fn escrever_decimal_dois_digitos(saida: &mut String, n: u64)
    ensures
        final(saida)@ == old(saida)@ + decimal_dois_digitos(n as nat),
{
    if n < 10 {
        acrescentar_char(saida, '0');
    }
    escrever_decimal(saida, n);
    proof {
        if n < 10 {
            assert(decimal(n as nat) == seq![digito(n as nat)]);
        }
    }
}

/// Compara duas strings caractere a caractere.
pub fn textos_iguais(a: &str, b: &str) -> (r: bool)
    ensures
        r == (a@ == b@),
{
    let n = a.unicode_len();
    if n != b.unicode_len() {
        return false;
    }
    let mut i: usize = 0;
    while i < n
        invariant
            n == a@.len(),
            n == b@.len(),
            i <= n,
            forall|j: int| 0 <= j < i ==> a@[j] == b@[j],
        decreases n - i,
    {
        if a.get_char(i) != b.get_char(i) {
            return false;
        }
        i = i + 1;
    }
    assert(a@ =~= b@);
    true
}

/// O texto começa com o caractere `c`.
pub fn comeca_com(s: &str, c: char) -> (r: bool)
    ensures
        r == (s@.len() > 0 && s@[0] == c),
{
    if s.unicode_len() == 0 {
        false
    } else {
        s.get_char(0) == c
    }
}

// ── Corte por bytes ─────────────────────────────────────────────────────────

/// Cortar o texto em `max` bytes não parte um caractere: ou o texto cabe em
/// `max` bytes, ou o byte `max` começa um caractere.
pub open spec fn corte_valido(s: Seq<char>, max: nat) -> bool {
    encode_utf8(s).len() <= max || is_char_boundary(encode_utf8(s), max as int)
}

/// Os primeiros `max` bytes do texto (o texto inteiro, se couber).
pub open spec fn prefixo_bytes(s: Seq<char>, max: nat) -> Seq<char> {
    if encode_utf8(s).len() <= max {
        s
    } else {
        decode_utf8(encode_utf8(s).subrange(0, max as int))
    }
}

/// Os primeiros `max_len` bytes do texto; o texto inteiro se couber.
pub fn cortar_em_bytes(s: &str, max_len: usize) -> (r: String)
    requires
        corte_valido(s@, max_len as nat),
    ensures
        r@ == prefixo_bytes(s@, max_len as nat),
        encode_utf8(r@).len() <= max_len,
        encode_utf8(r@) == if encode_utf8(s@).len() <= max_len {
            encode_utf8(s@)
        } else {
            encode_utf8(s@).subrange(0, max_len as int)
        },
{
    let tamanho = s.as_bytes().len();
    if tamanho <= max_len {
        s.to_owned()
    } else {
        let (inicio, _) = s.split_at(max_len);
        proof {
            encode_utf8_decode_utf8(inicio@);
        }
        inicio.to_owned()
    }
}

/// A codificação UTF-8 de uma concatenação é a concatenação das codificações.
pub proof fn lema_utf8_concatenacao(a: Seq<char>, b: Seq<char>)
    ensures
        encode_utf8(a + b) == encode_utf8(a) + encode_utf8(b),
    decreases a.len(),
{
    if a.len() == 0 {
        assert(a + b =~= b);
        assert(encode_utf8(a) + encode_utf8(b) =~= encode_utf8(b));
    } else {
        assert((a + b)[0] == a[0]);
        assert((a + b).drop_first() =~= a.drop_first() + b);
        lema_utf8_concatenacao(a.drop_first(), b);
        assert(encode_utf8(a + b) =~= encode_utf8(a) + encode_utf8(b));
    }
}

/// Os primeiros `max` bytes de um texto, cortados numa fronteira de
/// caractere, ocupam no máximo `max` bytes e são um prefixo dos bytes do texto.
pub proof fn lema_bytes_do_prefixo(s: Seq<char>, max: nat)
    requires
        corte_valido(s, max),
    ensures
        encode_utf8(prefixo_bytes(s, max)).len() <= max,
        encode_utf8(prefixo_bytes(s, max)) == encode_utf8(s).subrange(
            0,
            encode_utf8(prefixo_bytes(s, max)).len() as int,
        ),
{
    let b = encode_utf8(s);
    if b.len() <= max {
        assert(b.subrange(0, b.len() as int) =~= b);
    } else {
        encode_utf8_valid_utf8(s);
        valid_utf8_split(b, max as int);
        decode_utf8_encode_utf8(b.subrange(0, max as int));
    }
}

/// Os primeiros `max` bytes de um texto, cortados numa fronteira de
/// caractere, são os seus primeiros caracteres.
pub proof fn lema_prefixo_do_texto(s: Seq<char>, max: nat)
    requires
        corte_valido(s, max),
    ensures
        prefixo_bytes(s, max).len() <= s.len(),
        prefixo_bytes(s, max) == s.take(prefixo_bytes(s, max).len() as int),
{
    let b = encode_utf8(s);
    if b.len() <= max {
        assert(s.take(s.len() as int) =~= s);
    } else {
        encode_utf8_valid_utf8(s);
        encode_utf8_decode_utf8(s);
        decode_utf8_split(b, max as int);
        let p = decode_utf8(b.subrange(0, max as int));
        let q = decode_utf8(b.subrange(max as int, b.len() as int));
        assert(s =~= p + q);
        assert(s.take(p.len() as int) =~= p);
    }
}

// ── Leis dos dígitos e dos decimais ─────────────────────────────────────────

/// O valor de um dígito hexadecimal maiúsculo: `0`-`9` valem 0 a 9, `A`-`F`
/// valem 10 a 15.
pub open spec fn valor_hex(c: char) -> int {
    if c <= '9' {
        (c as int) - ('0' as int)
    } else {
        (c as int) - ('A' as int) + 10
    }
}

/// O caractere é um dígito hexadecimal maiúsculo.
pub open spec fn eh_hex(c: char) -> bool {
    ('0' <= c <= '9') || ('A' <= c <= 'F')
}

/// O dígito de valor `d < 16` é `'0' + d` de 0 a 9 e `'A' + (d - 10)` de 10
/// a 15; lido de volta, vale `d`.
pub proof fn lema_digito_hexadecimal(d: nat)
    requires
        d < 16,
    ensures
        d < 10 ==> digito(d) as u32 == ('0' as u32) + d,
        10 <= d ==> digito(d) as u32 == ('A' as u32) + (d - 10),
        eh_hex(digito(d)),
        valor_hex(digito(d)) == d,
{
}

/// `decimal(n)` é a escrita de `n` em base 10: só dígitos, sem zero à
/// esquerda (salvo o próprio 0), e lida de volta dá `n`.
pub proof fn lema_decimal(n: nat)
    ensures
        so_digitos(decimal(n)),
        valor_decimal(decimal(n)) == n,
        decimal(n)[0] != '0' || n == 0,
    decreases n,
{
    lema_digito_hexadecimal(n % 10);
    if n >= 10 {
        lema_decimal(n / 10);
        let a = decimal(n / 10);
        let d = decimal(n);
        assert(d == a.push(digito(n % 10)));
        assert(d.drop_last() =~= a);
        assert(d[0] == a[0]);
        assert forall|i: int| 0 <= i < d.len() implies '0' <= #[trigger] d[i] <= '9' by {
            if i < a.len() {
                assert(d[i] == a[i]);
            }
        }
        assert(((d.last() as nat) - ('0' as nat)) as nat == n % 10);
        assert(valor_decimal(d) == valor_decimal(a) * 10 + n % 10);
        assert(n == (n / 10) * 10 + n % 10);
        assert(valor_decimal(d) == n);
    } else {
        let d = decimal(n);
        assert(d.drop_last() =~= Seq::<char>::empty());
        assert(((d.last() as nat) - ('0' as nat)) as nat == n);
        assert(valor_decimal(d.drop_last()) == 0);
        assert(valor_decimal(d) == n);
    }
}

/// `decimal_dois_digitos(n)` é a escrita de `n` em base 10 com ao menos dois
/// dígitos: só dígitos e, lida de volta, dá `n`.
pub proof fn lema_decimal_dois_digitos(n: nat)
    ensures
        so_digitos(decimal_dois_digitos(n)),
        valor_decimal(decimal_dois_digitos(n)) == n,
        decimal_dois_digitos(n).len() >= 2,
{
    lema_decimal(n);
    if n < 10 {
        lema_digito_hexadecimal(n);
        let d = decimal_dois_digitos(n);
        assert(d.drop_last() =~= seq!['0']);
        let z = seq!['0'];
        assert(z.drop_last() =~= Seq::<char>::empty());
        assert(valor_decimal(z.drop_last()) == 0);
        assert(z.last() == '0');
        assert(valor_decimal(z) == 0);
        assert(valor_decimal(d) == n);
    } else {
        assert(decimal(n) == decimal(n / 10).push(digito(n % 10)));
        lema_decimal(n / 10);
    }
}

} // verus!
