//! Números decimais da linguagem. O valor é guardado pelas suas partes
//! (sinal, escala e mantissa de 96 bits em três palavras), e as operações
//! que só `rust_decimal` sabe fazer passam pelos invólucros deste módulo.
use vstd::prelude::*;
use rust_decimal::Decimal;
use std::str::FromStr;

verus! {

/// Um número decimal: `(-1)^negativo * mantissa / 10^escala`, com a mantissa
/// de 96 bits dividida em `hi`, `mid` e `lo`, como em `rust_decimal`.
#[derive(Clone, Copy, Debug)]
pub struct Dec {
    pub negativo: bool,
    pub escala: u32,
    pub hi: u32,
    pub mid: u32,
    pub lo: u32,
}

/// O modelo de um decimal: sinal, mantissa natural e escala.
pub struct DecimalModelo {
    pub negativo: bool,
    pub mantissa: nat,
    pub escala: nat,
}

impl View for Dec {
    type V = DecimalModelo;

    open spec fn view(&self) -> DecimalModelo {
        DecimalModelo {
            negativo: self.negativo,
            mantissa: self.hi as nat * 0x1_0000_0000_0000_0000 + self.mid as nat * 0x1_0000_0000
                + self.lo as nat,
            escala: self.escala as nat,
        }
    }
}

impl Dec {
    /// A escala de um decimal vai de 0 a 28.
    pub open spec fn wf(&self) -> bool {
        self.escala <= 28
    }
}

/// O modelo de um decimal opcional.
pub open spec fn opcao_modelo(r: Option<Dec>) -> Option<DecimalModelo> {
    match r {
        Some(d) => Some(d@),
        None => None,
    }
}

/// `10^e`.
pub open spec fn pot10(e: nat) -> int
    decreases e,
{
    if e == 0 {
        1
    } else {
        10 * pot10((e - 1) as nat)
    }
}

/// O numerador com sinal: o valor é `numerador(d) / 10^escala`.
pub open spec fn numerador(d: DecimalModelo) -> int {
    if d.negativo {
        -(d.mantissa as int)
    } else {
        d.mantissa as int
    }
}

/// `a < b` entre os valores numéricos.
pub open spec fn valor_menor(a: DecimalModelo, b: DecimalModelo) -> bool {
    numerador(a) * pot10(b.escala) < numerador(b) * pot10(a.escala)
}

/// `a == b` entre os valores numéricos (`1.0` é igual a `1.00`, e `-0` a `0`).
pub open spec fn valor_igual(a: DecimalModelo, b: DecimalModelo) -> bool {
    numerador(a) * pot10(b.escala) == numerador(b) * pot10(a.escala)
}

/// O resultado de `Decimal::from_str` num texto.
pub uninterp spec fn decimal_de_texto(s: Seq<char>) -> Option<DecimalModelo>;

/// O texto que `Decimal` escreve com `Display` (`to_string`).
pub uninterp spec fn texto_decimal(d: DecimalModelo) -> Seq<char>;

/// O resultado de `Decimal::checked_add`: `None` quando a soma estoura.
pub uninterp spec fn soma_decimal(a: DecimalModelo, b: DecimalModelo) -> Option<DecimalModelo>;

/// O resultado de `Decimal::checked_sub`.
pub uninterp spec fn diferenca_decimal(a: DecimalModelo, b: DecimalModelo) -> Option<
    DecimalModelo,
>;

/// O resultado de `Decimal::checked_mul`.
pub uninterp spec fn produto_decimal(a: DecimalModelo, b: DecimalModelo) -> Option<DecimalModelo>;

/// O resultado de `Decimal::checked_div`.
pub uninterp spec fn quociente_decimal(a: DecimalModelo, b: DecimalModelo) -> Option<
    DecimalModelo,
>;

/// O resultado de `Decimal::checked_rem`.
pub uninterp spec fn resto_decimal(a: DecimalModelo, b: DecimalModelo) -> Option<DecimalModelo>;

/// Chama `Decimal::from_str` no texto. O resultado é o valor do nome
/// `decimal_de_texto`, e um decimal obtido tem escala de no máximo 28
/// (a invariante de `Decimal`). Não se afirma aqui quais textos são aceitos.
#[verifier::external_body]
pub(crate) fn decimal_do_texto(s: &[char]) -> (r: Option<Dec>)
    ensures
        opcao_modelo(r) == decimal_de_texto(s@),
        r matches Some(d) ==> d.wf(),
{
    let t: String = s.iter().collect();
    match Decimal::from_str(&t) {
        Ok(z) => {
            let u = z.unpack();
            Some(Dec { negativo: u.negative, escala: u.scale, hi: u.hi, mid: u.mid, lo: u.lo })
        },
        Err(_) => None,
    }
}

/// Escreve o decimal com `Decimal::to_string` (o `Display` da crate); o
/// texto é o valor do nome `texto_decimal`.
#[verifier::external_body]
pub(crate) fn decimal_texto(d: Dec) -> (r: Vec<char>)
    requires
        d.wf(),
    ensures
        r@ == texto_decimal(d@),
{
    let mut x = Decimal::from_parts(d.lo, d.mid, d.hi, d.negativo, d.escala);
    x.set_sign_negative(d.negativo);
    x.to_string().chars().collect()
}

/// Soma com `Decimal::checked_add`; o resultado é o de `soma_decimal`.
#[verifier::external_body]
pub(crate) fn somar(a: Dec, b: Dec) -> (r: Option<Dec>)
    requires
        a.wf(),
        b.wf(),
    ensures
        opcao_modelo(r) == soma_decimal(a@, b@),
        r matches Some(d) ==> d.wf(),
{
    let mut x = Decimal::from_parts(a.lo, a.mid, a.hi, a.negativo, a.escala);
    x.set_sign_negative(a.negativo);
    let mut y = Decimal::from_parts(b.lo, b.mid, b.hi, b.negativo, b.escala);
    y.set_sign_negative(b.negativo);
    let u = x.checked_add(y)?.unpack();
    Some(Dec { negativo: u.negative, escala: u.scale, hi: u.hi, mid: u.mid, lo: u.lo })
}

/// Subtração com `Decimal::checked_sub`; o resultado é o de `diferenca_decimal`.
#[verifier::external_body]
pub(crate) fn subtrair(a: Dec, b: Dec) -> (r: Option<Dec>)
    requires
        a.wf(),
        b.wf(),
    ensures
        opcao_modelo(r) == diferenca_decimal(a@, b@),
        r matches Some(d) ==> d.wf(),
{
    let mut x = Decimal::from_parts(a.lo, a.mid, a.hi, a.negativo, a.escala);
    x.set_sign_negative(a.negativo);
    let mut y = Decimal::from_parts(b.lo, b.mid, b.hi, b.negativo, b.escala);
    y.set_sign_negative(b.negativo);
    let u = x.checked_sub(y)?.unpack();
    Some(Dec { negativo: u.negative, escala: u.scale, hi: u.hi, mid: u.mid, lo: u.lo })
}

/// Multiplicação com `Decimal::checked_mul`; o resultado é o de `produto_decimal`.
#[verifier::external_body]
pub(crate) fn multiplicar(a: Dec, b: Dec) -> (r: Option<Dec>)
    requires
        a.wf(),
        b.wf(),
    ensures
        opcao_modelo(r) == produto_decimal(a@, b@),
        r matches Some(d) ==> d.wf(),
{
    let mut x = Decimal::from_parts(a.lo, a.mid, a.hi, a.negativo, a.escala);
    x.set_sign_negative(a.negativo);
    let mut y = Decimal::from_parts(b.lo, b.mid, b.hi, b.negativo, b.escala);
    y.set_sign_negative(b.negativo);
    let u = x.checked_mul(y)?.unpack();
    Some(Dec { negativo: u.negative, escala: u.scale, hi: u.hi, mid: u.mid, lo: u.lo })
}

/// Divisão com `Decimal::checked_div`; o resultado é o de `quociente_decimal`.
#[verifier::external_body]
pub(crate) fn dividir(a: Dec, b: Dec) -> (r: Option<Dec>)
    requires
        a.wf(),
        b.wf(),
    ensures
        opcao_modelo(r) == quociente_decimal(a@, b@),
        r matches Some(d) ==> d.wf(),
{
    let mut x = Decimal::from_parts(a.lo, a.mid, a.hi, a.negativo, a.escala);
    x.set_sign_negative(a.negativo);
    let mut y = Decimal::from_parts(b.lo, b.mid, b.hi, b.negativo, b.escala);
    y.set_sign_negative(b.negativo);
    let u = x.checked_div(y)?.unpack();
    Some(Dec { negativo: u.negative, escala: u.scale, hi: u.hi, mid: u.mid, lo: u.lo })
}

/// Resto com `Decimal::checked_rem`; o resultado é o de `resto_decimal`.
#[verifier::external_body]
pub(crate) fn resto(a: Dec, b: Dec) -> (r: Option<Dec>)
    requires
        a.wf(),
        b.wf(),
    ensures
        opcao_modelo(r) == resto_decimal(a@, b@),
        r matches Some(d) ==> d.wf(),
{
    let mut x = Decimal::from_parts(a.lo, a.mid, a.hi, a.negativo, a.escala);
    x.set_sign_negative(a.negativo);
    let mut y = Decimal::from_parts(b.lo, b.mid, b.hi, b.negativo, b.escala);
    y.set_sign_negative(b.negativo);
    let u = x.checked_rem(y)?.unpack();
    Some(Dec { negativo: u.negative, escala: u.scale, hi: u.hi, mid: u.mid, lo: u.lo })
}

/// Compara com `<` de `Decimal` (ordem de `Ord`, que compara os valores
/// numéricos): verdadeiro exatamente quando o valor de `a` é menor que o de `b`.
#[verifier::external_body]
pub(crate) fn menor(a: Dec, b: Dec) -> (r: bool)
    requires
        a.wf(),
        b.wf(),
    ensures
        r == valor_menor(a@, b@),
{
    let mut x = Decimal::from_parts(a.lo, a.mid, a.hi, a.negativo, a.escala);
    x.set_sign_negative(a.negativo);
    let mut y = Decimal::from_parts(b.lo, b.mid, b.hi, b.negativo, b.escala);
    y.set_sign_negative(b.negativo);
    x < y
}

/// Compara com `==` de `Decimal`, que iguala valores numéricos (`1.0 == 1.00`,
/// `-0 == 0`): verdadeiro exatamente quando os valores são iguais.
#[verifier::external_body]
pub(crate) fn igual(a: Dec, b: Dec) -> (r: bool)
    requires
        a.wf(),
        b.wf(),
    ensures
        r == valor_igual(a@, b@),
{
    let mut x = Decimal::from_parts(a.lo, a.mid, a.hi, a.negativo, a.escala);
    x.set_sign_negative(a.negativo);
    let mut y = Decimal::from_parts(b.lo, b.mid, b.hi, b.negativo, b.escala);
    y.set_sign_negative(b.negativo);
    x == y
}

/// `-d`: troca o sinal e mantém mantissa e escala (como `Neg` de `Decimal`,
/// que também produz `-0`).
pub fn negar(d: Dec) -> (r: Dec)
    ensures
        r@ == (DecimalModelo { negativo: !d@.negativo, ..d@ }),
        r.wf() == d.wf(),
{
    Dec { negativo: !d.negativo, ..d }
}

/// `Decimal::is_zero`: a mantissa é zero.
pub fn e_zero(d: Dec) -> (r: bool)
    ensures
        r == (d@.mantissa == 0),
{
    d.lo == 0 && d.mid == 0 && d.hi == 0
}

} // verus!
