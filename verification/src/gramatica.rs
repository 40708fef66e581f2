//! A gramática da linguagem como funções sobre a sequência de tokens. Cada
//! regra lê a partir de uma posição e dá o que reconheceu e a posição
//! seguinte, ou o primeiro erro de sintaxe.
//!
//! As regras seguem a descida recursiva do parser: `or` < `and` <
//! comparações < `+ -` < `* / %` < unários < primários.
use vstd::prelude::*;
use crate::ast::{ExprM, InstrM, OperadorAtribuicao};
use crate::decimal::decimal_de_texto;
use crate::lexer::{TokenKind, TokenModelo, nome_kind};
use crate::valores::{ErroModelo, Tipo};

verus! {

/// Uma sequência de tokens não vazia que termina em `Fim`, como a que o
/// lexer produz.
pub open spec fn terminada(ts: Seq<TokenModelo>) -> bool {
    ts.len() >= 1 && ts.last().kind == TokenKind::Fim
}

/// O token na posição `p` (um `Fim` vazio fora da sequência).
pub open spec fn token_em(ts: Seq<TokenModelo>, p: int) -> TokenModelo {
    if 0 <= p < ts.len() {
        ts[p]
    } else {
        TokenModelo { kind: TokenKind::Fim, texto: Seq::empty(), linha: 0 }
    }
}

/// A posição depois de avançar um token; o último token nunca é
/// ultrapassado.
pub open spec fn avanca(ts: Seq<TokenModelo>, p: int) -> int {
    if p < ts.len() - 1 {
        p + 1
    } else {
        p
    }
}

/// A regra que começou em `p` parou em `q`, adiante de `p` e dentro da
/// sequência.
pub open spec fn avancou(ts: Seq<TokenModelo>, p: int, q: int) -> bool {
    p < q && q <= ts.len()
}

/// Um erro de sintaxe.
pub open spec fn erro_sintaxe(linha: nat, mensagem: Seq<char>) -> ErroModelo {
    ErroModelo::Sintaxe { linha, mensagem }
}

/// O resultado de uma regra que não avançou. Em sequências terminadas em
/// `Fim` isso não acontece (o parser prova que toda regra bem sucedida
/// avança).
pub open spec fn parado(ts: Seq<TokenModelo>, p: int) -> ErroModelo {
    erro_sintaxe(token_em(ts, p).linha, Seq::empty())
}

/// `consumir`: o token atual, se tiver o tipo esperado, e a posição
/// seguinte; senão o erro "Esperado ..., encontrado '...'.".
pub open spec fn p_consumir(ts: Seq<TokenModelo>, p: int, esperado: TokenKind) -> Result<
    (TokenModelo, int),
    ErroModelo,
> {
    let t = token_em(ts, p);
    if t.kind == esperado {
        Ok((t, avanca(ts, p)))
    } else {
        Err(
            erro_sintaxe(
                t.linha,
                "Esperado "@ + nome_kind(esperado) + ", encontrado '"@ + t.texto + "'."@,
            ),
        )
    }
}

// ================================================================
// Expressões
// ================================================================

/// Os operadores binários de cada nível de precedência: 5 é `or`, 4 é
/// `and`, 3 são as comparações, 2 são `+` e `-`, 1 são `*`, `/` e `%`.
pub open spec fn operador_do_nivel(nivel: nat, k: TokenKind) -> bool {
    if nivel == 5 {
        k == TokenKind::Or
    } else if nivel == 4 {
        k == TokenKind::And
    } else if nivel == 3 {
        k == TokenKind::Maior || k == TokenKind::Menor || k == TokenKind::MaiorIgual || k
            == TokenKind::MenorIgual || k == TokenKind::IgualIgual || k == TokenKind::Diferente
    } else if nivel == 2 {
        k == TokenKind::Mais || k == TokenKind::Menos
    } else {
        k == TokenKind::Multiplica || k == TokenKind::Divide || k == TokenKind::Modulo
    }
}

/// A expressão binária que o operador `k` forma com `a` e `b`.
pub open spec fn binaria(k: TokenKind, a: ExprM, b: ExprM) -> ExprM {
    let (a, b) = (Box::new(a), Box::new(b));
    match k {
        TokenKind::Or => ExprM::Or(a, b),
        TokenKind::And => ExprM::And(a, b),
        TokenKind::Maior => ExprM::Maior(a, b),
        TokenKind::Menor => ExprM::Menor(a, b),
        TokenKind::MaiorIgual => ExprM::MaiorIgual(a, b),
        TokenKind::MenorIgual => ExprM::MenorIgual(a, b),
        TokenKind::IgualIgual => ExprM::Igual(a, b),
        TokenKind::Diferente => ExprM::Diferente(a, b),
        TokenKind::Mais => ExprM::Soma(a, b),
        TokenKind::Menos => ExprM::Subtracao(a, b),
        TokenKind::Multiplica => ExprM::Multiplicacao(a, b),
        TokenKind::Divide => ExprM::Divisao(a, b),
        _ => ExprM::Modulo(a, b),
    }
}

/// Uma expressão completa: o nível do `or`.
pub open spec fn p_expressao(ts: Seq<TokenModelo>, p: int) -> Result<(ExprM, int), ErroModelo>
    decreases ts.len() - p, 16nat,
{
    p_nivel(ts, 5, p)
}

/// Um operando do nível `nivel`: uma expressão do nível de baixo, ou um
/// unário no nível 1.
pub open spec fn p_operando(ts: Seq<TokenModelo>, nivel: nat, p: int) -> Result<
    (ExprM, int),
    ErroModelo,
>
    decreases ts.len() - p, 2 * nivel + 4,
{
    if nivel <= 1 {
        p_unario(ts, p)
    } else {
        p_nivel(ts, (nivel - 1) as nat, p)
    }
}

/// Uma sequência de operandos do nível `nivel` ligados pelos seus
/// operadores, associando à esquerda.
pub open spec fn p_nivel(ts: Seq<TokenModelo>, nivel: nat, p: int) -> Result<
    (ExprM, int),
    ErroModelo,
>
    decreases ts.len() - p, 2 * nivel + 5,
{
    match p_operando(ts, nivel, p) {
        Err(x) => Err(x),
        Ok((e, q)) => if avancou(ts, p, q) {
            p_nivel_resto(ts, nivel, e, q)
        } else {
            Err(parado(ts, p))
        },
    }
}

/// O resto de um nível depois do operando `esq`: enquanto houver um operador
/// do nível, lê o operando seguinte e combina.
pub open spec fn p_nivel_resto(ts: Seq<TokenModelo>, nivel: nat, esq: ExprM, p: int) -> Result<
    (ExprM, int),
    ErroModelo,
>
    decreases ts.len() - p, 2 * nivel + 5,
{
    let k = token_em(ts, p).kind;
    if operador_do_nivel(nivel, k) {
        match p_operando(ts, nivel, avanca(ts, p)) {
            Err(x) => Err(x),
            Ok((d, q)) => if avancou(ts, p, q) {
                p_nivel_resto(ts, nivel, binaria(k, esq, d), q)
            } else {
                Err(parado(ts, p))
            },
        }
    } else {
        Ok((esq, p))
    }
}

/// `not` e `-` prefixos, ou um primário.
pub open spec fn p_unario(ts: Seq<TokenModelo>, p: int) -> Result<(ExprM, int), ErroModelo>
    decreases ts.len() - p, 2nat,
{
    let k = token_em(ts, p).kind;
    let r = avanca(ts, p);
    if k == TokenKind::Not || k == TokenKind::Menos {
        if r > p {
            match p_unario(ts, r) {
                Err(x) => Err(x),
                Ok((e, q)) => if k == TokenKind::Not {
                    Ok((ExprM::Not(Box::new(e)), q))
                } else {
                    Ok((ExprM::Negativo(Box::new(e)), q))
                },
            }
        } else {
            Err(parado(ts, p))
        }
    } else {
        p_primario(ts, p)
    }
}

/// Um número, texto, booleano, variável, chamada ou expressão entre
/// parênteses.
pub open spec fn p_primario(ts: Seq<TokenModelo>, p: int) -> Result<(ExprM, int), ErroModelo>
    decreases ts.len() - p, 1nat,
{
    let t = token_em(ts, p);
    let r = avanca(ts, p);
    match t.kind {
        TokenKind::Numero => match decimal_de_texto(t.texto) {
            None => Err(erro_sintaxe(t.linha, "Número decimal inválido."@)),
            Some(d) => Ok((ExprM::Decimal(d), r)),
        },
        TokenKind::Texto => Ok((ExprM::Texto(t.texto), r)),
        TokenKind::Boolean => Ok((ExprM::Booleano(t.texto == "true"@), r)),
        TokenKind::Identificador => if token_em(ts, r).kind == TokenKind::AbrePar {
            let s = avanca(ts, r);
            if s > p {
                let args = if token_em(ts, s).kind != TokenKind::FechaPar {
                    p_argumentos(ts, Seq::empty(), s)
                } else {
                    Ok((Seq::empty(), s))
                };
                match args {
                    Err(x) => Err(x),
                    Ok((a, q)) => match p_consumir(ts, q, TokenKind::FechaPar) {
                        Err(x) => Err(x),
                        Ok((_, q2)) => Ok((ExprM::Chamada { nome: t.texto, argumentos: a }, q2)),
                    },
                }
            } else {
                Err(parado(ts, p))
            }
        } else {
            Ok((ExprM::Variavel(t.texto), r))
        },
        TokenKind::AbrePar => if r > p {
            match p_expressao(ts, r) {
                Err(x) => Err(x),
                Ok((e, q)) => match p_consumir(ts, q, TokenKind::FechaPar) {
                    Err(x) => Err(x),
                    Ok((_, q2)) => Ok((e, q2)),
                },
            }
        } else {
            Err(parado(ts, p))
        },
        _ => Err(erro_sintaxe(t.linha, "Expressão inesperada '"@ + t.texto + "'."@)),
    }
}

/// Os argumentos de uma chamada, separados por vírgulas, acrescentados a
/// `acc`.
pub open spec fn p_argumentos(ts: Seq<TokenModelo>, acc: Seq<ExprM>, p: int) -> Result<
    (Seq<ExprM>, int),
    ErroModelo,
>
    decreases ts.len() - p, 17nat,
{
    match p_expressao(ts, p) {
        Err(x) => Err(x),
        Ok((e, q)) => if token_em(ts, q).kind == TokenKind::Virgula {
            let r = avanca(ts, q);
            if avancou(ts, p, r) {
                p_argumentos(ts, acc.push(e), r)
            } else {
                Err(parado(ts, p))
            }
        } else {
            Ok((acc.push(e), q))
        },
    }
}

// ================================================================
// Instruções
// ================================================================

/// O operador de atribuição de um token, se for um.
pub open spec fn operador_de(k: TokenKind) -> Option<OperadorAtribuicao> {
    match k {
        TokenKind::Igual => Some(OperadorAtribuicao::Igual),
        TokenKind::MaisIgual => Some(OperadorAtribuicao::Mais),
        TokenKind::MenosIgual => Some(OperadorAtribuicao::Menos),
        TokenKind::MultiplicaIgual => Some(OperadorAtribuicao::Multiplica),
        TokenKind::DivideIgual => Some(OperadorAtribuicao::Divide),
        TokenKind::ModuloIgual => Some(OperadorAtribuicao::Modulo),
        _ => None,
    }
}

/// O tipo declarado por uma palavra de tipo.
pub open spec fn tipo_de(k: TokenKind) -> Tipo {
    if k == TokenKind::Decimal {
        Tipo::Decimal
    } else if k == TokenKind::String {
        Tipo::String
    } else {
        Tipo::Boolean
    }
}

/// Uma instrução, escolhida pelo token atual.
pub open spec fn p_instrucao(ts: Seq<TokenModelo>, p: int) -> Result<(InstrM, int), ErroModelo>
    decreases ts.len() - p, 19nat,
{
    let t = token_em(ts, p);
    match t.kind {
        TokenKind::Decimal | TokenKind::String | TokenKind::Boolean => p_declaracao(ts, p),
        TokenKind::Display => p_display(ts, p),
        TokenKind::If => p_if(ts, p),
        TokenKind::While => p_while(ts, p),
        TokenKind::Func => p_funcao(ts, p),
        TokenKind::Return => p_retorno(ts, p),
        TokenKind::Identificador => p_atribuicao(ts, p),
        _ => Err(erro_sintaxe(t.linha, "Instrução inesperada '"@ + t.texto + "'."@)),
    }
}

/// `tipo nome = expressão`.
pub open spec fn p_declaracao(ts: Seq<TokenModelo>, p: int) -> Result<(InstrM, int), ErroModelo>
    decreases ts.len() - p, 18nat,
{
    let t = token_em(ts, p);
    match p_consumir(ts, avanca(ts, p), TokenKind::Identificador) {
        Err(x) => Err(x),
        Ok((nome, q1)) => match p_consumir(ts, q1, TokenKind::Igual) {
            Err(x) => Err(x),
            Ok((_, q2)) => if q2 >= p {
                match p_expressao(ts, q2) {
                    Err(x) => Err(x),
                    Ok((v, q)) => Ok(
                        (
                            InstrM::Declarar {
                                tipo: tipo_de(t.kind),
                                nome: nome.texto,
                                valor: v,
                                linha: t.linha,
                            },
                            q,
                        ),
                    ),
                }
            } else {
                Err(parado(ts, p))
            },
        },
    }
}

/// `nome op expressão`, com `op` entre `=`, `+=`, `-=`, `*=`, `/=` e `%=`.
pub open spec fn p_atribuicao(ts: Seq<TokenModelo>, p: int) -> Result<(InstrM, int), ErroModelo>
    decreases ts.len() - p, 18nat,
{
    match p_consumir(ts, p, TokenKind::Identificador) {
        Err(x) => Err(x),
        Ok((nome, q1)) => match operador_de(token_em(ts, q1).kind) {
            None => Err(erro_sintaxe(nome.linha, "Esperado '=' ou operador de atribuição."@)),
            Some(o) => {
                let r = avanca(ts, q1);
                if r >= p {
                    match p_expressao(ts, r) {
                        Err(x) => Err(x),
                        Ok((v, q)) => Ok(
                            (
                                InstrM::Atribuir {
                                    nome: nome.texto,
                                    operador: o,
                                    valor: v,
                                    linha: nome.linha,
                                },
                                q,
                            ),
                        ),
                    }
                } else {
                    Err(parado(ts, p))
                }
            },
        },
    }
}

/// `display expressão`.
pub open spec fn p_display(ts: Seq<TokenModelo>, p: int) -> Result<(InstrM, int), ErroModelo>
    decreases ts.len() - p, 18nat,
{
    let linha = token_em(ts, p).linha;
    match p_consumir(ts, p, TokenKind::Display) {
        Err(x) => Err(x),
        Ok((_, q1)) => if q1 >= p {
            match p_expressao(ts, q1) {
                Err(x) => Err(x),
                Ok((v, q)) => Ok((InstrM::Display { valor: v, linha }, q)),
            }
        } else {
            Err(parado(ts, p))
        },
    }
}

/// `return expressão`.
pub open spec fn p_retorno(ts: Seq<TokenModelo>, p: int) -> Result<(InstrM, int), ErroModelo>
    decreases ts.len() - p, 18nat,
{
    let linha = token_em(ts, p).linha;
    match p_consumir(ts, p, TokenKind::Return) {
        Err(x) => Err(x),
        Ok((_, q1)) => if q1 >= p {
            match p_expressao(ts, q1) {
                Err(x) => Err(x),
                Ok((v, q)) => Ok((InstrM::Return { valor: v, linha }, q)),
            }
        } else {
            Err(parado(ts, p))
        },
    }
}

/// `if condição ... [else ...] end`.
pub open spec fn p_if(ts: Seq<TokenModelo>, p: int) -> Result<(InstrM, int), ErroModelo>
    decreases ts.len() - p, 18nat,
{
    let linha = token_em(ts, p).linha;
    match p_consumir(ts, p, TokenKind::If) {
        Err(x) => Err(x),
        Ok((_, q1)) => if q1 >= p {
            match p_expressao(ts, q1) {
                Err(x) => Err(x),
                Ok((c, q2)) => if avancou(ts, p, q2) {
                    match p_bloco(ts, Seq::empty(), q2, true) {
                        Err(x) => Err(x),
                        Ok((v, q3)) => {
                            let r = avanca(ts, q3);
                            let senao = if token_em(ts, q3).kind == TokenKind::Else {
                                if avancou(ts, p, r) {
                                    p_bloco(ts, Seq::empty(), r, false)
                                } else {
                                    Err(parado(ts, p))
                                }
                            } else {
                                Ok((Seq::empty(), q3))
                            };
                            match senao {
                                Err(x) => Err(x),
                                Ok((f, q4)) => match p_consumir(ts, q4, TokenKind::End) {
                                    Err(x) => Err(x),
                                    Ok((_, q)) => Ok(
                                        (
                                            InstrM::If {
                                                condicao: c,
                                                verdadeiro: v,
                                                falso: f,
                                                linha,
                                            },
                                            q,
                                        ),
                                    ),
                                },
                            }
                        },
                    }
                } else {
                    Err(parado(ts, p))
                },
            }
        } else {
            Err(parado(ts, p))
        },
    }
}

/// `while condição ... end`.
pub open spec fn p_while(ts: Seq<TokenModelo>, p: int) -> Result<(InstrM, int), ErroModelo>
    decreases ts.len() - p, 18nat,
{
    let linha = token_em(ts, p).linha;
    match p_consumir(ts, p, TokenKind::While) {
        Err(x) => Err(x),
        Ok((_, q1)) => if q1 >= p {
            match p_expressao(ts, q1) {
                Err(x) => Err(x),
                Ok((c, q2)) => if avancou(ts, p, q2) {
                    match p_bloco(ts, Seq::empty(), q2, false) {
                        Err(x) => Err(x),
                        Ok((b, q3)) => match p_consumir(ts, q3, TokenKind::End) {
                            Err(x) => Err(x),
                            Ok((_, q)) => Ok((InstrM::While { condicao: c, bloco: b, linha }, q)),
                        },
                    }
                } else {
                    Err(parado(ts, p))
                },
            }
        } else {
            Err(parado(ts, p))
        },
    }
}

/// Os parâmetros de uma função, separados por vírgulas, acrescentados a
/// `acc`.
pub open spec fn p_parametros(ts: Seq<TokenModelo>, acc: Seq<Seq<char>>, p: int) -> Result<
    (Seq<Seq<char>>, int),
    ErroModelo,
>
    decreases ts.len() - p,
{
    match p_consumir(ts, p, TokenKind::Identificador) {
        Err(x) => Err(x),
        Ok((t, q)) => if token_em(ts, q).kind == TokenKind::Virgula {
            let r = avanca(ts, q);
            if avancou(ts, p, r) {
                p_parametros(ts, acc.push(t.texto), r)
            } else {
                Err(parado(ts, p))
            }
        } else {
            Ok((acc.push(t.texto), q))
        },
    }
}

/// `func nome(parâmetros) ... end`.
pub open spec fn p_funcao(ts: Seq<TokenModelo>, p: int) -> Result<(InstrM, int), ErroModelo>
    decreases ts.len() - p, 18nat,
{
    let linha = token_em(ts, p).linha;
    match p_consumir(ts, p, TokenKind::Func) {
        Err(x) => Err(x),
        Ok((_, q1)) => match p_consumir(ts, q1, TokenKind::Identificador) {
            Err(x) => Err(x),
            Ok((nome, q2)) => match p_consumir(ts, q2, TokenKind::AbrePar) {
                Err(x) => Err(x),
                Ok((_, q3)) => {
                    let ps = if token_em(ts, q3).kind != TokenKind::FechaPar {
                        p_parametros(ts, Seq::empty(), q3)
                    } else {
                        Ok((Seq::empty(), q3))
                    };
                    match ps {
                        Err(x) => Err(x),
                        Ok((parametros, q4)) => match p_consumir(ts, q4, TokenKind::FechaPar) {
                            Err(x) => Err(x),
                            Ok((_, q5)) => if avancou(ts, p, q5) {
                                match p_bloco(ts, Seq::empty(), q5, false) {
                                    Err(x) => Err(x),
                                    Ok((b, q6)) => match p_consumir(ts, q6, TokenKind::End) {
                                        Err(x) => Err(x),
                                        Ok((_, q)) => Ok(
                                            (
                                                InstrM::Funcao {
                                                    nome: nome.texto,
                                                    parametros,
                                                    bloco: b,
                                                    linha,
                                                },
                                                q,
                                            ),
                                        ),
                                    },
                                }
                            } else {
                                Err(parado(ts, p))
                            },
                        },
                    }
                },
            },
        },
    }
}

/// O token fecha um bloco: `end`, o fim do código e, no ramo verdadeiro de
/// um `if`, `else`.
pub open spec fn fecha_bloco(k: TokenKind, com_else: bool) -> bool {
    k == TokenKind::End || k == TokenKind::Fim || (com_else && k == TokenKind::Else)
}

/// As instruções de um bloco até o token que o fecha, acrescentadas a `acc`.
pub open spec fn p_bloco(ts: Seq<TokenModelo>, acc: Seq<InstrM>, p: int, com_else: bool) -> Result<
    (Seq<InstrM>, int),
    ErroModelo,
>
    decreases ts.len() - p, 20nat,
{
    if fecha_bloco(token_em(ts, p).kind, com_else) {
        Ok((acc, p))
    } else {
        match p_instrucao(ts, p) {
            Err(x) => Err(x),
            Ok((i, q)) => if avancou(ts, p, q) {
                p_bloco(ts, acc.push(i), q, com_else)
            } else {
                Err(parado(ts, p))
            },
        }
    }
}

/// As instruções do programa até o fim do código, acrescentadas a `acc`.
pub open spec fn p_programa(ts: Seq<TokenModelo>, acc: Seq<InstrM>, p: int) -> Result<
    (Seq<InstrM>, int),
    ErroModelo,
>
    decreases ts.len() - p,
{
    if token_em(ts, p).kind == TokenKind::Fim {
        Ok((acc, p))
    } else {
        match p_instrucao(ts, p) {
            Err(x) => Err(x),
            Ok((i, q)) => if avancou(ts, p, q) {
                p_programa(ts, acc.push(i), q)
            } else {
                Err(parado(ts, p))
            },
        }
    }
}

/// A análise sintática de um programa inteiro: as instruções até o `Fim`.
pub open spec fn sintaxe(ts: Seq<TokenModelo>) -> Result<Seq<InstrM>, ErroModelo> {
    match p_programa(ts, Seq::empty(), 0) {
        Err(x) => Err(x),
        Ok((s, _)) => Ok(s),
    }
}

} // verus!
