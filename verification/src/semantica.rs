//! A semântica de execução da linguagem, sobre o modelo do programa e do
//! estado: o que o interpretador (`runtime`) calcula.
//!
//! Toda execução recebe um combustível `c`: cada volta de um `while` e cada
//! chamada de função gastam uma unidade, e o interpretador começa com
//! `u64::MAX`, de modo que o limite só seria atingido depois de mais passos
//! do que uma máquina executa.
use vstd::prelude::*;
use crate::ast::{
    ExprM, InstrM, OperadorAtribuicao, decimal_wf, instrs_wf, tam_expr, tam_exprs, tam_instr,
    tam_instrs,
};
use crate::decimal::{
    DecimalModelo, diferenca_decimal, produto_decimal, quociente_decimal, resto_decimal,
    soma_decimal, valor_menor,
};
use crate::tabela::{buscar, escopo_de, inserir, valor_de};
use crate::texto::{digitos, substituir_tudo};
use crate::valores::{ErroModelo, ValorModelo, nome_tipo, texto_valor, tipo_valor, valores_iguais};

verus! {

/// O modelo de uma função registrada: parâmetros e corpo.
pub struct FuncaoM {
    pub parametros: Seq<Seq<char>>,
    pub bloco: Seq<InstrM>,
}

/// O modelo do estado de execução: a pilha de escopos de variáveis (o
/// primeiro é o global), as funções registradas e as linhas já escritas
/// por `display`.
pub struct EstadoR {
    pub variaveis: Seq<Seq<(Seq<char>, ValorModelo)>>,
    pub funcoes: Seq<(Seq<char>, FuncaoM)>,
    pub saida: Seq<Seq<char>>,
}

/// As duas operações decimais que só diferem na conta feita.
#[derive(Clone, Copy, Debug, PartialEq, Eq, Structural)]
pub enum OperacaoDecimal {
    Subtracao,
    Multiplicacao,
}

/// As quatro comparações entre decimais.
#[derive(Clone, Copy, Debug, PartialEq, Eq, Structural)]
pub enum Comparacao {
    Maior,
    Menor,
    MaiorIgual,
    MenorIgual,
}

/// O combustível com que o interpretador começa.
pub open spec fn combustivel_inicial() -> nat {
    0xFFFF_FFFF_FFFF_FFFF
}

// ================================================================
// Valores
// ================================================================

/// Um valor bem formado: decimais com escala válida.
pub open spec fn valor_wf(v: ValorModelo) -> bool {
    match v {
        ValorModelo::Decimal(d) => decimal_wf(d),
        _ => true,
    }
}

/// `"{a} {sep} {b}"` com os nomes dos tipos dos dois valores.
pub open spec fn tipos_de(a: ValorModelo, b: ValorModelo, sep: Seq<char>) -> Seq<char> {
    nome_tipo(tipo_valor(a)) + sep + nome_tipo(tipo_valor(b))
}

/// Um erro de tipo.
pub open spec fn erro_tipo(linha: nat, esperado: Seq<char>, recebido: Seq<char>) -> ErroModelo {
    ErroModelo::Tipo { linha, esperado, recebido }
}

/// Um erro de execução.
pub open spec fn erro_execucao(linha: nat, mensagem: Seq<char>) -> ErroModelo {
    ErroModelo::Runtime { linha, mensagem }
}

/// O erro de um resultado decimal que não cabe em 96 bits.
pub open spec fn erro_estouro(linha: nat) -> ErroModelo {
    erro_execucao(linha, "Resultado decimal fora do intervalo."@)
}

/// O erro de um programa que esgotou o combustível.
pub open spec fn erro_limite(linha: nat) -> ErroModelo {
    erro_execucao(linha, "Limite de execução atingido."@)
}

/// O decimal calculado, ou o erro de estouro.
pub open spec fn decimal_ou_estouro(r: Option<DecimalModelo>, linha: nat) -> Result<
    ValorModelo,
    ErroModelo,
> {
    match r {
        Some(d) => Ok(ValorModelo::Decimal(d)),
        None => Err(erro_estouro(linha)),
    }
}

/// `a + b`: soma de decimais ou concatenação de textos.
pub open spec fn somar_valores(a: ValorModelo, b: ValorModelo, linha: nat) -> Result<
    ValorModelo,
    ErroModelo,
> {
    match (a, b) {
        (ValorModelo::Decimal(x), ValorModelo::Decimal(y)) => decimal_ou_estouro(
            soma_decimal(x, y),
            linha,
        ),
        (ValorModelo::Texto(x), ValorModelo::Texto(y)) => Ok(ValorModelo::Texto(x + y)),
        _ => Err(
            erro_tipo(linha, "decimal + decimal ou string + string"@, tipos_de(a, b, " + "@)),
        ),
    }
}

/// `a - b` ou `a * b` entre decimais; `esperado` é o texto do erro de tipo.
pub open spec fn operar_decimais(
    a: ValorModelo,
    b: ValorModelo,
    linha: nat,
    op: OperacaoDecimal,
    esperado: Seq<char>,
) -> Result<ValorModelo, ErroModelo> {
    match (a, b) {
        (ValorModelo::Decimal(x), ValorModelo::Decimal(y)) => decimal_ou_estouro(
            match op {
                OperacaoDecimal::Subtracao => diferenca_decimal(x, y),
                OperacaoDecimal::Multiplicacao => produto_decimal(x, y),
            },
            linha,
        ),
        _ => Err(erro_tipo(linha, esperado, tipos_de(a, b, " e "@))),
    }
}

/// `a / b` entre decimais, com erro para divisor zero.
pub open spec fn dividir_valores(a: ValorModelo, b: ValorModelo, linha: nat) -> Result<
    ValorModelo,
    ErroModelo,
> {
    match (a, b) {
        (ValorModelo::Decimal(x), ValorModelo::Decimal(y)) => if y.mantissa == 0 {
            Err(erro_execucao(linha, "Divisão por zero."@))
        } else {
            decimal_ou_estouro(quociente_decimal(x, y), linha)
        },
        _ => Err(erro_tipo(linha, "decimal / decimal"@, tipos_de(a, b, " / "@))),
    }
}

/// `a % b` entre decimais, com erro para divisor zero.
pub open spec fn resto_valores(a: ValorModelo, b: ValorModelo, linha: nat) -> Result<
    ValorModelo,
    ErroModelo,
> {
    match (a, b) {
        (ValorModelo::Decimal(x), ValorModelo::Decimal(y)) => if y.mantissa == 0 {
            Err(erro_execucao(linha, "Módulo por zero."@))
        } else {
            decimal_ou_estouro(resto_decimal(x, y), linha)
        },
        _ => Err(erro_tipo(linha, "decimal % decimal"@, tipos_de(a, b, " % "@))),
    }
}

/// O resultado de uma comparação entre os valores de dois decimais.
pub open spec fn comparacao_decimal(x: DecimalModelo, y: DecimalModelo, op: Comparacao) -> bool {
    match op {
        Comparacao::Maior => valor_menor(y, x),
        Comparacao::Menor => valor_menor(x, y),
        Comparacao::MaiorIgual => !valor_menor(x, y),
        Comparacao::MenorIgual => !valor_menor(y, x),
    }
}

/// `a > b`, `a < b`, `a >= b` ou `a <= b` entre decimais.
pub open spec fn comparar_valores(a: ValorModelo, b: ValorModelo, linha: nat, op: Comparacao) -> Result<
    ValorModelo,
    ErroModelo,
> {
    match (a, b) {
        (ValorModelo::Decimal(x), ValorModelo::Decimal(y)) => Ok(
            ValorModelo::Booleano(comparacao_decimal(x, y, op)),
        ),
        _ => Err(erro_tipo(linha, "dois valores decimal"@, tipos_de(a, b, " e "@))),
    }
}

/// O valor de uma operação binária sobre os valores já avaliados dos operandos.
pub open spec fn combinar(e: ExprM, a: ValorModelo, b: ValorModelo, linha: nat) -> Result<
    ValorModelo,
    ErroModelo,
> {
    match e {
        ExprM::Soma(_, _) => somar_valores(a, b, linha),
        ExprM::Subtracao(_, _) => operar_decimais(
            a,
            b,
            linha,
            OperacaoDecimal::Subtracao,
            "decimal - decimal"@,
        ),
        ExprM::Multiplicacao(_, _) => operar_decimais(
            a,
            b,
            linha,
            OperacaoDecimal::Multiplicacao,
            "decimal * decimal"@,
        ),
        ExprM::Divisao(_, _) => dividir_valores(a, b, linha),
        ExprM::Modulo(_, _) => resto_valores(a, b, linha),
        ExprM::Maior(_, _) => comparar_valores(a, b, linha, Comparacao::Maior),
        ExprM::Menor(_, _) => comparar_valores(a, b, linha, Comparacao::Menor),
        ExprM::MaiorIgual(_, _) => comparar_valores(a, b, linha, Comparacao::MaiorIgual),
        ExprM::MenorIgual(_, _) => comparar_valores(a, b, linha, Comparacao::MenorIgual),
        ExprM::Igual(_, _) => Ok(ValorModelo::Booleano(valores_iguais(a, b))),
        _ => Ok(ValorModelo::Booleano(!valores_iguais(a, b))),
    }
}

/// Um valor booleano, ou o erro de tipo de quem esperava um.
pub open spec fn booleano(v: ValorModelo, linha: nat) -> Result<bool, ErroModelo> {
    match v {
        ValorModelo::Booleano(b) => Ok(b),
        _ => Err(erro_tipo(linha, "boolean"@, nome_tipo(tipo_valor(v)))),
    }
}

/// `x op= y`: o novo valor de uma variável numa atribuição.
pub open spec fn aplicar_atribuicao(
    antigo: ValorModelo,
    novo: ValorModelo,
    op: OperadorAtribuicao,
    linha: nat,
) -> Result<ValorModelo, ErroModelo> {
    match op {
        OperadorAtribuicao::Igual => if tipo_valor(antigo) != tipo_valor(novo) {
            Err(
                erro_tipo(
                    linha,
                    nome_tipo(tipo_valor(antigo)),
                    nome_tipo(tipo_valor(novo)),
                ),
            )
        } else {
            Ok(novo)
        },
        OperadorAtribuicao::Mais => match (antigo, novo) {
            (ValorModelo::Decimal(x), ValorModelo::Decimal(y)) => decimal_ou_estouro(
                soma_decimal(x, y),
                linha,
            ),
            (ValorModelo::Texto(x), ValorModelo::Texto(y)) => Ok(ValorModelo::Texto(x + y)),
            _ => Err(
                erro_tipo(
                    linha,
                    "tipos iguais compatíveis com +="@,
                    tipos_de(antigo, novo, " e "@),
                ),
            ),
        },
        OperadorAtribuicao::Menos => operar_decimais(
            antigo,
            novo,
            linha,
            OperacaoDecimal::Subtracao,
            "decimal e decimal"@,
        ),
        OperadorAtribuicao::Multiplica => operar_decimais(
            antigo,
            novo,
            linha,
            OperacaoDecimal::Multiplicacao,
            "decimal e decimal"@,
        ),
        OperadorAtribuicao::Divide => match (antigo, novo) {
            (ValorModelo::Decimal(x), ValorModelo::Decimal(y)) => if y.mantissa == 0 {
                Err(erro_execucao(linha, "Divisão por zero."@))
            } else {
                decimal_ou_estouro(quociente_decimal(x, y), linha)
            },
            _ => Err(erro_tipo(linha, "decimal /= decimal"@, tipos_de(antigo, novo, " e "@))),
        },
        OperadorAtribuicao::Modulo => match (antigo, novo) {
            (ValorModelo::Decimal(x), ValorModelo::Decimal(y)) => if y.mantissa == 0 {
                Err(erro_execucao(linha, "Módulo por zero."@))
            } else {
                decimal_ou_estouro(resto_decimal(x, y), linha)
            },
            _ => Err(erro_tipo(linha, "decimal %= decimal"@, tipos_de(antigo, novo, " e "@))),
        },
    }
}

// ================================================================
// Estado
// ================================================================

/// Um estado bem formado: há sempre o escopo global, os valores guardados
/// são bem formados e os corpos das funções também.
pub open spec fn estado_wf(st: EstadoR) -> bool {
    &&& st.variaveis.len() >= 1
    &&& forall|i: int, j: int|
        0 <= i < st.variaveis.len() && 0 <= j < st.variaveis[i].len() ==> valor_wf(
            #[trigger] st.variaveis[i][j].1,
        )
    &&& forall|k: int| 0 <= k < st.funcoes.len() ==> instrs_wf(#[trigger] st.funcoes[k].1.bloco)
}

/// Declara (ou redeclara) `nome` no escopo mais interno.
pub open spec fn declarar(st: EstadoR, nome: Seq<char>, v: ValorModelo) -> EstadoR {
    if st.variaveis.len() == 0 {
        st
    } else {
        let i = st.variaveis.len() - 1;
        EstadoR { variaveis: st.variaveis.update(i, inserir(st.variaveis[i], nome, v)), ..st }
    }
}

/// Empilha um escopo.
pub open spec fn empilhar(st: EstadoR, escopo: Seq<(Seq<char>, ValorModelo)>) -> EstadoR {
    EstadoR { variaveis: st.variaveis.push(escopo), ..st }
}

/// Desempilha o escopo mais interno.
pub open spec fn desempilhar(st: EstadoR) -> EstadoR {
    EstadoR { variaveis: st.variaveis.drop_last(), ..st }
}

/// O marcador `{nome}` de uma interpolação.
pub open spec fn marcador(nome: Seq<char>) -> Seq<char> {
    seq!['{'] + nome + seq!['}']
}

/// Troca em `t` o marcador de cada variável do escopo pelo texto do seu
/// valor, na ordem do escopo.
pub open spec fn interpolar_escopo(escopo: Seq<(Seq<char>, ValorModelo)>, t: Seq<char>) -> Seq<
    char,
>
    decreases escopo.len(),
{
    if escopo.len() == 0 {
        t
    } else {
        interpolar_escopo(
            escopo.drop_first(),
            substituir_tudo(t, marcador(escopo[0].0), texto_valor(escopo[0].1)),
        )
    }
}

/// A interpolação de `t` por todos os escopos, do global ao mais interno.
pub open spec fn interpolar(variaveis: Seq<Seq<(Seq<char>, ValorModelo)>>, t: Seq<char>) -> Seq<
    char,
>
    decreases variaveis.len(),
{
    if variaveis.len() == 0 {
        t
    } else {
        interpolar(variaveis.drop_first(), interpolar_escopo(variaveis[0], t))
    }
}

/// A mensagem de variável inexistente.
pub open spec fn msg_variavel_inexistente(nome: Seq<char>) -> Seq<char> {
    "Variável '"@ + nome + "' não existe."@
}

/// A mensagem de função inexistente.
pub open spec fn msg_funcao_inexistente(nome: Seq<char>) -> Seq<char> {
    "Função '"@ + nome + "' não existe."@
}

/// A mensagem de número errado de argumentos.
pub open spec fn msg_aridade(nome: Seq<char>, esperado: nat, recebido: nat) -> Seq<char> {
    "Função '"@ + nome + "' espera "@ + digitos(esperado) + " argumento(s), mas recebeu "@
        + digitos(recebido) + "."@
}

// ================================================================
// Avaliação e execução
// ================================================================

/// Avalia uma expressão: o estado depois dela e o valor, ou o erro.
pub open spec fn avaliar(st: EstadoR, e: ExprM, linha: nat, c: nat) -> (EstadoR, Result<
    ValorModelo,
    ErroModelo,
>)
    decreases c, tam_expr(e), 0nat,
{
    match e {
        ExprM::Decimal(d) => (st, Ok(ValorModelo::Decimal(d))),
        ExprM::Texto(s) => (st, Ok(ValorModelo::Texto(s))),
        ExprM::Booleano(b) => (st, Ok(ValorModelo::Booleano(b))),
        ExprM::Variavel(nome) => match buscar(st.variaveis, nome) {
            Some(v) => (st, Ok(v)),
            None => (st, Err(erro_execucao(linha, msg_variavel_inexistente(nome)))),
        },
        ExprM::Negativo(a) => {
            let (s1, r) = avaliar(st, *a, linha, c);
            match r {
                Err(x) => (s1, Err(x)),
                Ok(ValorModelo::Decimal(d)) => (
                    s1,
                    Ok(ValorModelo::Decimal(DecimalModelo { negativo: !d.negativo, ..d })),
                ),
                Ok(v) => (s1, Err(erro_tipo(linha, "decimal"@, nome_tipo(tipo_valor(v))))),
            }
        },
        ExprM::And(a, b) => {
            let (s1, r) = avaliar(st, *a, linha, c);
            match r {
                Err(x) => (s1, Err(x)),
                Ok(va) => match booleano(va, linha) {
                    Err(x) => (s1, Err(x)),
                    Ok(false) => (s1, Ok(ValorModelo::Booleano(false))),
                    Ok(true) => {
                        let (s2, r2) = avaliar(s1, *b, linha, c);
                        match r2 {
                            Err(x) => (s2, Err(x)),
                            Ok(vb) => match booleano(vb, linha) {
                                Err(x) => (s2, Err(x)),
                                Ok(y) => (s2, Ok(ValorModelo::Booleano(y))),
                            },
                        }
                    },
                },
            }
        },
        ExprM::Or(a, b) => {
            let (s1, r) = avaliar(st, *a, linha, c);
            match r {
                Err(x) => (s1, Err(x)),
                Ok(va) => match booleano(va, linha) {
                    Err(x) => (s1, Err(x)),
                    Ok(true) => (s1, Ok(ValorModelo::Booleano(true))),
                    Ok(false) => {
                        let (s2, r2) = avaliar(s1, *b, linha, c);
                        match r2 {
                            Err(x) => (s2, Err(x)),
                            Ok(vb) => match booleano(vb, linha) {
                                Err(x) => (s2, Err(x)),
                                Ok(y) => (s2, Ok(ValorModelo::Booleano(y))),
                            },
                        }
                    },
                },
            }
        },
        ExprM::Not(a) => {
            let (s1, r) = avaliar(st, *a, linha, c);
            match r {
                Err(x) => (s1, Err(x)),
                Ok(va) => match booleano(va, linha) {
                    Err(x) => (s1, Err(x)),
                    Ok(y) => (s1, Ok(ValorModelo::Booleano(!y))),
                },
            }
        },
        ExprM::Chamada { nome, argumentos } => match valor_de(st.funcoes, nome) {
            None => (st, Err(erro_execucao(linha, msg_funcao_inexistente(nome)))),
            Some(f) => if argumentos.len() != f.parametros.len() {
                (
                    st,
                    Err(
                        erro_execucao(
                            linha,
                            msg_aridade(nome, f.parametros.len(), argumentos.len()),
                        ),
                    ),
                )
            } else if c == 0 {
                (st, Err(erro_limite(linha)))
            } else {
                let (s1, r) = avaliar_argumentos(
                    st,
                    f.parametros,
                    argumentos,
                    Seq::empty(),
                    linha,
                    c,
                );
                match r {
                    Err(x) => (s1, Err(x)),
                    Ok(escopo) => {
                        let (s2, r2) = executar_sequencia(
                            empilhar(s1, escopo),
                            f.bloco,
                            (c - 1) as nat,
                        );
                        match r2 {
                            Err(x) => (s2, Err(x)),
                            Ok(Some(v)) => (desempilhar(s2), Ok(v)),
                            Ok(None) => (desempilhar(s2), Ok(ValorModelo::Vazio)),
                        }
                    },
                }
            },
        },
        ExprM::Soma(a, b) | ExprM::Subtracao(a, b) | ExprM::Multiplicacao(a, b) | ExprM::Divisao(
            a,
            b,
        ) | ExprM::Modulo(a, b) | ExprM::Maior(a, b) | ExprM::Menor(a, b) | ExprM::MaiorIgual(a, b)
        | ExprM::MenorIgual(a, b) | ExprM::Igual(a, b) | ExprM::Diferente(a, b) => {
            let (s1, ra) = avaliar(st, *a, linha, c);
            match ra {
                Err(x) => (s1, Err(x)),
                Ok(va) => {
                    let (s2, rb) = avaliar(s1, *b, linha, c);
                    match rb {
                        Err(x) => (s2, Err(x)),
                        Ok(vb) => (s2, combinar(e, va, vb, linha)),
                    }
                },
            }
        },
    }
}

/// Avalia os argumentos de uma chamada, da esquerda para a direita, e
/// associa cada valor ao parâmetro correspondente no escopo novo.
pub open spec fn avaliar_argumentos(
    st: EstadoR,
    parametros: Seq<Seq<char>>,
    argumentos: Seq<ExprM>,
    escopo: Seq<(Seq<char>, ValorModelo)>,
    linha: nat,
    c: nat,
) -> (EstadoR, Result<Seq<(Seq<char>, ValorModelo)>, ErroModelo>)
    decreases c, tam_exprs(argumentos), 0nat,
{
    if argumentos.len() == 0 || parametros.len() == 0 {
        (st, Ok(escopo))
    } else {
        let (s1, r) = avaliar(st, argumentos[0], linha, c);
        match r {
            Err(x) => (s1, Err(x)),
            Ok(v) => avaliar_argumentos(
                s1,
                parametros.drop_first(),
                argumentos.drop_first(),
                inserir(escopo, parametros[0], v),
                linha,
                c,
            ),
        }
    }
}

/// Executa uma instrução: o estado depois dela e, se ela retornou, o valor
/// retornado.
pub open spec fn executar_instrucao(st: EstadoR, i: InstrM, c: nat) -> (EstadoR, Result<
    Option<ValorModelo>,
    ErroModelo,
>)
    decreases c, tam_instr(i), 0nat,
{
    match i {
        InstrM::Declarar { nome, valor, .. } => {
            let (s1, r) = avaliar(st, valor, 0, c);
            match r {
                Err(x) => (s1, Err(x)),
                Ok(v) => (declarar(s1, nome, v), Ok(None)),
            }
        },
        InstrM::Atribuir { nome, operador, valor, linha } => {
            let (s1, r) = avaliar(st, valor, linha, c);
            match r {
                Err(x) => (s1, Err(x)),
                Ok(novo) => match escopo_de(s1.variaveis, nome) {
                    None => (s1, Err(erro_execucao(linha, msg_variavel_inexistente(nome)))),
                    Some(k) => match valor_de(s1.variaveis[k], nome) {
                        None => (s1, Ok(None)),
                        Some(antigo) => match aplicar_atribuicao(antigo, novo, operador, linha) {
                            Err(x) => (s1, Err(x)),
                            Ok(v) => (
                                EstadoR {
                                    variaveis: s1.variaveis.update(
                                        k,
                                        inserir(s1.variaveis[k], nome, v),
                                    ),
                                    ..s1
                                },
                                Ok(None),
                            ),
                        },
                    },
                },
            }
        },
        InstrM::Display { valor, linha } => {
            let (s1, r) = avaliar(st, valor, linha, c);
            match r {
                Err(x) => (s1, Err(x)),
                Ok(v) => (
                    EstadoR {
                        saida: s1.saida.push(interpolar(s1.variaveis, texto_valor(v))),
                        ..s1
                    },
                    Ok(None),
                ),
            }
        },
        InstrM::If { condicao, verdadeiro, falso, linha } => {
            let (s1, r) = avaliar(st, condicao, linha, c);
            match r {
                Err(x) => (s1, Err(x)),
                Ok(ValorModelo::Booleano(true)) => executar_bloco(s1, verdadeiro, c),
                Ok(ValorModelo::Booleano(false)) => executar_bloco(s1, falso, c),
                Ok(v) => (s1, Err(erro_tipo(linha, "boolean"@, nome_tipo(tipo_valor(v))))),
            }
        },
        InstrM::While { condicao, bloco, linha } => repetir(st, condicao, bloco, linha, c),
        InstrM::Funcao { .. } => (st, Ok(None)),
        InstrM::Return { valor, linha } => {
            let (s1, r) = avaliar(st, valor, linha, c);
            match r {
                Err(x) => (s1, Err(x)),
                Ok(v) => (s1, Ok(Some(v))),
            }
        },
    }
}

/// As voltas de um `while`: cada uma gasta uma unidade de combustível.
pub open spec fn repetir(
    st: EstadoR,
    condicao: ExprM,
    bloco: Seq<InstrM>,
    linha: nat,
    c: nat,
) -> (EstadoR, Result<Option<ValorModelo>, ErroModelo>)
    decreases c, tam_instrs(bloco), 1nat,
{
    if c == 0 {
        (st, Err(erro_limite(linha)))
    } else {
        let (s1, r) = avaliar(st, condicao, linha, (c - 1) as nat);
        match r {
            Err(x) => (s1, Err(x)),
            Ok(ValorModelo::Booleano(true)) => {
                let (s2, r2) = executar_bloco(s1, bloco, (c - 1) as nat);
                match r2 {
                    Err(x) => (s2, Err(x)),
                    Ok(Some(v)) => (s2, Ok(Some(v))),
                    Ok(None) => repetir(s2, condicao, bloco, linha, (c - 1) as nat),
                }
            },
            Ok(ValorModelo::Booleano(false)) => (s1, Ok(None)),
            Ok(v) => (s1, Err(erro_tipo(linha, "boolean"@, nome_tipo(tipo_valor(v))))),
        }
    }
}

/// Executa instruções em ordem até a primeira que retorna.
pub open spec fn executar_sequencia(st: EstadoR, s: Seq<InstrM>, c: nat) -> (EstadoR, Result<
    Option<ValorModelo>,
    ErroModelo,
>)
    decreases c, tam_instrs(s), 0nat,
{
    if s.len() == 0 {
        (st, Ok(None))
    } else {
        let (s1, r) = executar_instrucao(st, s[0], c);
        match r {
            Err(x) => (s1, Err(x)),
            Ok(Some(v)) => (s1, Ok(Some(v))),
            Ok(None) => executar_sequencia(s1, s.drop_first(), c),
        }
    }
}

/// Executa um bloco num escopo novo, que é descartado ao fim do bloco.
pub open spec fn executar_bloco(st: EstadoR, s: Seq<InstrM>, c: nat) -> (EstadoR, Result<
    Option<ValorModelo>,
    ErroModelo,
>)
    decreases c, tam_instrs(s), 1nat,
{
    let (s1, r) = executar_sequencia(empilhar(st, Seq::empty()), s, c);
    match r {
        Err(x) => (s1, Err(x)),
        Ok(v) => (desempilhar(s1), Ok(v)),
    }
}

/// Registra as funções declaradas no programa, em ordem.
pub open spec fn registrar(funcoes: Seq<(Seq<char>, FuncaoM)>, programa: Seq<InstrM>) -> Seq<
    (Seq<char>, FuncaoM),
>
    decreases programa.len(),
{
    if programa.len() == 0 {
        funcoes
    } else {
        let f = match programa[0] {
            InstrM::Funcao { nome, parametros, bloco, .. } => inserir(
                funcoes,
                nome,
                FuncaoM { parametros, bloco },
            ),
            _ => funcoes,
        };
        registrar(f, programa.drop_first())
    }
}

/// Executa as instruções do programa que não são declarações de função.
pub open spec fn executar_topo(st: EstadoR, programa: Seq<InstrM>, c: nat) -> (EstadoR, Result<
    (),
    ErroModelo,
>)
    decreases programa.len(),
{
    if programa.len() == 0 {
        (st, Ok(()))
    } else if programa[0] is Funcao {
        executar_topo(st, programa.drop_first(), c)
    } else {
        let (s1, r) = executar_instrucao(st, programa[0], c);
        match r {
            Err(x) => (s1, Err(x)),
            Ok(_) => executar_topo(s1, programa.drop_first(), c),
        }
    }
}

/// A execução de um programa: registra as funções e executa o resto.
pub open spec fn executar_programa(st: EstadoR, programa: Seq<InstrM>) -> (EstadoR, Result<
    (),
    ErroModelo,
>) {
    executar_topo(
        EstadoR { funcoes: registrar(st.funcoes, programa), ..st },
        programa,
        combustivel_inicial(),
    )
}

} // verus!
