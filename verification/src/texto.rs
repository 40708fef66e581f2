//! Textos como sequências de caracteres: cópia de literais, comparação,
//! concatenação, conversão de números, substituição de marcadores e as
//! classificações de caracteres que o lexer usa.
use vstd::prelude::*;

verus! {

// ----------------------------------------------------------------
// Classificação de caracteres
// ----------------------------------------------------------------

/// A propriedade Unicode `White_Space`, que `char::is_whitespace` testa: os
/// controles de `\t` a `\r`, o espaço, U+0085, U+00A0, U+1680, U+2000 a
/// U+200A, U+2028, U+2029, U+202F, U+205F e U+3000.
#[verifier::opaque]
pub open spec fn espaco_branco(c: char) -> bool {
    ||| '\u{9}' <= c <= '\u{d}'
    ||| c == ' '
    ||| c == '\u{85}'
    ||| c == '\u{a0}'
    ||| c == '\u{1680}'
    ||| '\u{2000}' <= c <= '\u{200a}'
    ||| c == '\u{2028}'
    ||| c == '\u{2029}'
    ||| c == '\u{202f}'
    ||| c == '\u{205f}'
    ||| c == '\u{3000}'
}

/// Um caractere ASCII.
pub open spec fn ascii(c: char) -> bool {
    c <= '\u{7f}'
}

/// Uma letra ASCII.
pub open spec fn letra_ascii(c: char) -> bool {
    ('a' <= c <= 'z') || ('A' <= c <= 'Z')
}

/// O resultado de `char::is_alphabetic` num caractere fora do ASCII.
pub uninterp spec fn alfabetico_unicode(c: char) -> bool;

/// O resultado de `char::is_alphanumeric` num caractere fora do ASCII.
pub uninterp spec fn alfanumerico_unicode(c: char) -> bool;

/// A propriedade Unicode `Alphabetic`, que `char::is_alphabetic` testa: no
/// ASCII, exatamente as letras.
#[verifier::opaque]
pub open spec fn alfabetico(c: char) -> bool {
    if ascii(c) {
        letra_ascii(c)
    } else {
        alfabetico_unicode(c)
    }
}

/// Alfabético ou numérico (categorias Nd, Nl e No), como
/// `char::is_alphanumeric`: no ASCII, exatamente as letras e os dígitos.
#[verifier::opaque]
pub open spec fn alfanumerico(c: char) -> bool {
    if ascii(c) {
        letra_ascii(c) || digito(c)
    } else {
        alfanumerico_unicode(c)
    }
}

/// Chama `char::is_whitespace`, que a documentação da biblioteca padrão
/// define pela propriedade Unicode `White_Space`: a lista de `espaco_branco`.
#[verifier::external_body]
pub(crate) fn e_espaco_branco(c: char) -> (r: bool)
    ensures
        r == espaco_branco(c),
{
    c.is_whitespace()
}

/// Chama `char::is_alphabetic` (propriedade Unicode `Alphabetic`): no ASCII
/// são alfabéticas exatamente as letras; fora do ASCII o resultado é o valor
/// do nome `alfabetico_unicode`.
#[verifier::external_body]
pub(crate) fn e_alfabetico(c: char) -> (r: bool)
    ensures
        r == alfabetico(c),
        !ascii(c) ==> r == alfabetico_unicode(c),
{
    c.is_alphabetic()
}

/// Chama `char::is_alphanumeric`, que a documentação define como
/// "`is_alphabetic()` ou `is_numeric()`": no ASCII, exatamente as letras e
/// os dígitos; fora do ASCII o resultado é o valor do nome
/// `alfanumerico_unicode`, e todo caractere alfabético é alfanumérico.
#[verifier::external_body]
pub(crate) fn e_alfanumerico(c: char) -> (r: bool)
    ensures
        r == alfanumerico(c),
        !ascii(c) ==> r == alfanumerico_unicode(c),
        alfabetico(c) ==> r,
{
    c.is_alphanumeric()
}

/// Dígito decimal ASCII.
pub open spec fn digito(c: char) -> bool {
    '0' <= c && c <= '9'
}

/// `char::is_ascii_digit`: verdadeiro exatamente para `'0'..='9'`.
pub fn e_digito(c: char) -> (r: bool)
    ensures
        r == digito(c),
{
    '0' <= c && c <= '9'
}

// ----------------------------------------------------------------
// Cópia, comparação e concatenação
// ----------------------------------------------------------------

/// Copia os caracteres de um texto para um vetor.
pub fn texto_de(s: &str) -> (r: Vec<char>)
    ensures
        r@ == s@,
{
    broadcast use vstd::string::group_string_axioms;

    let mut r: Vec<char> = Vec::new();
    for c in it: s.chars()
        invariant
            it.seq() == s@,
            r@ == s@.take(it.index() as int),
    {
        r.push(c);
    }
    r
}

/// Cópia de um vetor de caracteres.
pub fn copiar(s: &[char]) -> (r: Vec<char>)
    ensures
        r@ == s@,
{
    let mut r: Vec<char> = Vec::new();
    anexar(&mut r, s);
    r
}

/// Acrescenta `origem` ao fim de `destino`.
pub fn anexar(destino: &mut Vec<char>, origem: &[char])
    ensures
        final(destino)@ == old(destino)@ + origem@,
{
    let n: usize = origem.len();
    let mut i: usize = 0;
    while i < n
        invariant
            n == origem@.len(),
            i <= n,
            destino@ == old(destino)@ + origem@.take(i as int),
        decreases n - i,
    {
        destino.push(origem[i]);
        i = i + 1;
        assert(origem@.take(i as int) == origem@.take((i - 1) as int).push(origem@[i - 1]));
    }
    assert(origem@.take(n as int) == origem@);
}

/// Acrescenta um literal ao fim de `destino`.
pub fn anexar_literal(destino: &mut Vec<char>, origem: &str)
    ensures
        final(destino)@ == old(destino)@ + origem@,
{
    let t = texto_de(origem);
    anexar(destino, t.as_slice());
}

/// Igualdade de dois textos.
pub fn iguais(a: &[char], b: &[char]) -> (r: bool)
    ensures
        r == (a@ == b@),
{
    if a.len() != b.len() {
        return false;
    }
    let n: usize = a.len();
    let mut i: usize = 0;
    while i < n
        invariant
            n == a@.len(),
            n == b@.len(),
            i <= n,
            a@.take(i as int) == b@.take(i as int),
        decreases n - i,
    {
        if a[i] != b[i] {
            assert(a@[i as int] != b@[i as int]);
            return false;
        }
        i = i + 1;
        assert(a@.take(i as int) == a@.take((i - 1) as int).push(a@[i - 1]));
        assert(b@.take(i as int) == b@.take((i - 1) as int).push(b@[i - 1]));
    }
    assert(a@.take(n as int) == a@);
    assert(b@.take(n as int) == b@);
    true
}

// ----------------------------------------------------------------
// Números inteiros em texto
// ----------------------------------------------------------------

/// O caractere do dígito decimal `d` (para `d < 10`).
pub open spec fn caractere_digito(d: nat) -> char {
    if d == 0 {
        '0'
    } else if d == 1 {
        '1'
    } else if d == 2 {
        '2'
    } else if d == 3 {
        '3'
    } else if d == 4 {
        '4'
    } else if d == 5 {
        '5'
    } else if d == 6 {
        '6'
    } else if d == 7 {
        '7'
    } else if d == 8 {
        '8'
    } else {
        '9'
    }
}

/// A escrita decimal de um número natural, sem zeros à esquerda.
pub open spec fn digitos(n: nat) -> Seq<char>
    decreases n,
{
    if n < 10 {
        seq![caractere_digito(n)]
    } else {
        digitos(n / 10).push(caractere_digito(n % 10))
    }
}

fn digito_de(d: usize) -> (c: char)
    requires
        d < 10,
    ensures
        c == caractere_digito(d as nat),
{
    if d == 0 {
        '0'
    } else if d == 1 {
        '1'
    } else if d == 2 {
        '2'
    } else if d == 3 {
        '3'
    } else if d == 4 {
        '4'
    } else if d == 5 {
        '5'
    } else if d == 6 {
        '6'
    } else if d == 7 {
        '7'
    } else if d == 8 {
        '8'
    } else {
        '9'
    }
}

/// Escreve um número em base dez, como `format!("{}", n)`.
pub fn numero_texto(n: usize) -> (r: Vec<char>)
    ensures
        r@ == digitos(n as nat),
    decreases n,
{
    if n < 10 {
        let mut r: Vec<char> = Vec::new();
        r.push(digito_de(n));
        assert(r@ == seq![caractere_digito(n as nat)]);
        r
    } else {
        let mut r = numero_texto(n / 10);
        r.push(digito_de(n % 10));
        r
    }
}

// ----------------------------------------------------------------
// Substituição
// ----------------------------------------------------------------

/// `s` com cada ocorrência de `padrao` trocada por `troca`, da esquerda para
/// a direita e sem sobreposição (como `str::replace` com padrão não vazio).
pub open spec fn substituir_tudo(s: Seq<char>, padrao: Seq<char>, troca: Seq<char>) -> Seq<char>
    decreases s.len(),
{
    if padrao.len() == 0 || s.len() < padrao.len() {
        s
    } else if s.take(padrao.len() as int) == padrao {
        troca + substituir_tudo(s.skip(padrao.len() as int), padrao, troca)
    } else {
        seq![s[0]] + substituir_tudo(s.drop_first(), padrao, troca)
    }
}

fn ocorre_em(s: &[char], i: usize, padrao: &[char]) -> (r: bool)
    requires
        i <= s@.len(),
    ensures
        r == (padrao@.len() <= s@.len() - i && s@.skip(i as int).take(padrao@.len() as int)
            == padrao@),
{
    if padrao.len() > s.len() - i {
        return false;
    }
    let n: usize = padrao.len();
    let mut k: usize = 0;
    while k < n
        invariant
            n == padrao@.len(),
            i + n <= s@.len(),
            s@.len() == s.len(),
            k <= n,
            forall|j: int| 0 <= j < k ==> s@[i + j] == padrao@[j],
        decreases n - k,
    {
        if s[i + k] != padrao[k] {
            assert(s@.skip(i as int).take(n as int)[k as int] != padrao@[k as int]);
            return false;
        }
        k = k + 1;
    }
    assert(s@.skip(i as int).take(n as int) =~= padrao@);
    true
}

/// Troca cada ocorrência de `padrao` em `s` por `troca` (`str::replace`).
pub fn substituir(s: &[char], padrao: &[char], troca: &[char]) -> (r: Vec<char>)
    requires
        padrao@.len() > 0,
    ensures
        r@ == substituir_tudo(s@, padrao@, troca@),
{
    let mut r: Vec<char> = Vec::new();
    let n: usize = s.len();
    let mut i: usize = 0;
    assert(s@.skip(0) == s@);
    while i < n
        invariant
            n == s@.len(),
            i <= n,
            padrao@.len() > 0,
            r@ + substituir_tudo(s@.skip(i as int), padrao@, troca@) == substituir_tudo(
                s@,
                padrao@,
                troca@,
            ),
        decreases n - i,
    {
        let ghost resto = s@.skip(i as int);
        if ocorre_em(s, i, padrao) {
            anexar(&mut r, troca);
            assert(resto.skip(padrao@.len() as int) == s@.skip(i + padrao@.len()));
            i = i + padrao.len();
        } else {
            r.push(s[i]);
            assert(resto.drop_first() == s@.skip(i + 1));
            assert(resto[0] == s@[i as int]);
            i = i + 1;
        }
    }
    assert(s@.skip(n as int) =~= Seq::<char>::empty());
    assert(r@ + Seq::<char>::empty() == r@);
    r
}

} // verus!
