//! O que cada operação da linguagem faz, dito em termos das suas entradas e
//! resultados: como o lexer lê operadores e palavras reservadas, como o
//! parser forma cada expressão e respeita a precedência, que tipos a
//! análise aceita, o valor de cada conta e comparação, o que `if`, `while`,
//! `display`, declarações e chamadas fazem na execução, e a interpolação de
//! variáveis de qualquer escopo.
use vstd::prelude::*;
use crate::ast::{ExprM, InstrM, OperadorAtribuicao};
use crate::gramatica::{
    avanca, binaria, operador_do_nivel, p_atribuicao, p_expressao, p_nivel, p_nivel_resto, p_operando, p_primario,
    p_unario, token_em,
};
use crate::lexer::{TokenKind, TokenModelo, fim_palavra, lex_de, palavra_chave, prefixar, token};
use crate::leis::{
    lei_bloco_fecha_o_escopo, lei_interpolacao_sem_marcadores, lema_interpolar_escopo_sem_chave,
};
use crate::decimal::{
    DecimalModelo, diferenca_decimal, numerador, pot10, produto_decimal, quociente_decimal,
    resto_decimal, soma_decimal,
};
use crate::semantica::{
    EstadoR, FuncaoM, avaliar, decimal_ou_estouro, interpolar, interpolar_escopo, marcador, executar_bloco, executar_instrucao, executar_sequencia, repetir,
};
use crate::semantico::{EstadoS, abrir, analisar_instr, analisar_lista, tipo_binario, tipo_expr};
use crate::tabela::{
    buscar, chaves, inserir, lema_escopo_de, lema_primeira, lema_primeira_existe, primeira,
    tem_chave, valor_de,
};
use crate::texto::{alfabetico, alfanumerico, espaco_branco, substituir_tudo};
use crate::valores::{ErroModelo, Tipo, ValorModelo, texto_valor};

verus! {

// ================================================================
// Análise de tipos
// ================================================================

/// `a == b` e `a != b` são aceitos sempre que os dois lados têm o mesmo
/// tipo, qualquer que ele seja (dois textos, dois booleanos, dois decimais,
/// dois `vazio`), e dão um booleano; lados de tipos diferentes são um erro
/// de tipo.
#[verifier::rlimit(60)]
pub proof fn lei_igualdade_entre_tipos_iguais(st: EstadoS, a: ExprM, b: ExprM)
    requires
        tipo_expr(st, a) is Ok,
        tipo_expr(st, b) is Ok,
    ensures
        tipo_expr(st, a) == tipo_expr(st, b) ==> tipo_expr(
            st,
            ExprM::Igual(Box::new(a), Box::new(b)),
        ) == Ok::<Tipo, ErroModelo>(Tipo::Boolean) && tipo_expr(
            st,
            ExprM::Diferente(Box::new(a), Box::new(b)),
        ) == Ok::<Tipo, ErroModelo>(Tipo::Boolean),
        tipo_expr(st, a) != tipo_expr(st, b) ==> (tipo_expr(
            st,
            ExprM::Igual(Box::new(a), Box::new(b)),
        ) matches Err(ErroModelo::Tipo { .. })),
        tipo_expr(st, a) != tipo_expr(st, b) ==> (tipo_expr(
            st,
            ExprM::Diferente(Box::new(a), Box::new(b)),
        ) matches Err(ErroModelo::Tipo { .. })),
{
    let (ta, tb) = (tipo_expr(st, a)->Ok_0, tipo_expr(st, b)->Ok_0);
    let igual = ExprM::Igual(Box::new(a), Box::new(b));
    let diferente = ExprM::Diferente(Box::new(a), Box::new(b));
    assert(tipo_expr(st, igual) == tipo_binario(igual, ta, tb));
    assert(tipo_expr(st, diferente) == tipo_binario(diferente, ta, tb));
}

/// Os tipos dos operadores binários, para quaisquer tipos `t` e `u` dos
/// operandos: `==` e `!=` aceitam dois valores do mesmo tipo, seja ele qual
/// for, e dão `boolean`; `+` soma dois decimais ou junta dois textos; `-`,
/// `*`, `/` e `%` só aceitam decimais; as comparações de ordem comparam dois
/// decimais e dão `boolean`; `and` e `or` só aceitam booleanos. Fora disso,
/// erro de tipo.
pub proof fn lei_tipos_dos_operadores(a: ExprM, b: ExprM, t: Tipo, u: Tipo)
    ensures
        tipo_binario(ExprM::Igual(Box::new(a), Box::new(b)), t, t) == Ok::<Tipo, ErroModelo>(
            Tipo::Boolean,
        ),
        tipo_binario(ExprM::Diferente(Box::new(a), Box::new(b)), t, t) == Ok::<Tipo, ErroModelo>(
            Tipo::Boolean,
        ),
        t != u ==> (tipo_binario(ExprM::Igual(Box::new(a), Box::new(b)), t, u) matches Err(
            ErroModelo::Tipo { .. },
        )),
        t == u && (t == Tipo::Decimal || t == Tipo::String) ==> tipo_binario(
            ExprM::Soma(Box::new(a), Box::new(b)),
            t,
            u,
        ) == Ok::<Tipo, ErroModelo>(t),
        !(t == u && (t == Tipo::Decimal || t == Tipo::String)) ==> (tipo_binario(
            ExprM::Soma(Box::new(a), Box::new(b)),
            t,
            u,
        ) matches Err(ErroModelo::Tipo { .. })),
        (tipo_binario(ExprM::Modulo(Box::new(a), Box::new(b)), t, u) is Ok) <==> (t
            == Tipo::Decimal && u == Tipo::Decimal),
        (tipo_binario(ExprM::Subtracao(Box::new(a), Box::new(b)), t, u) is Ok) <==> (t
            == Tipo::Decimal && u == Tipo::Decimal),
        (tipo_binario(ExprM::Multiplicacao(Box::new(a), Box::new(b)), t, u) is Ok) <==> (t
            == Tipo::Decimal && u == Tipo::Decimal),
        (tipo_binario(ExprM::Divisao(Box::new(a), Box::new(b)), t, u) is Ok) <==> (t
            == Tipo::Decimal && u == Tipo::Decimal),
        t == Tipo::Decimal && u == Tipo::Decimal ==> tipo_binario(
            ExprM::Modulo(Box::new(a), Box::new(b)),
            t,
            u,
        ) == Ok::<Tipo, ErroModelo>(Tipo::Decimal),
        (tipo_binario(ExprM::Menor(Box::new(a), Box::new(b)), t, u) is Ok) <==> (t
            == Tipo::Decimal && u == Tipo::Decimal),
        t == Tipo::Decimal && u == Tipo::Decimal ==> tipo_binario(
            ExprM::Maior(Box::new(a), Box::new(b)),
            t,
            u,
        ) == Ok::<Tipo, ErroModelo>(Tipo::Boolean),
        (tipo_binario(ExprM::And(Box::new(a), Box::new(b)), t, u) is Ok) <==> (t
            == Tipo::Boolean && u == Tipo::Boolean),
        (tipo_binario(ExprM::Or(Box::new(a), Box::new(b)), t, u) is Ok) <==> (t
            == Tipo::Boolean && u == Tipo::Boolean),
{
}

/// Uma variável usada numa expressão tem o tipo com que foi declarada no
/// escopo mais interno que a tem; uma variável não declarada é um erro
/// semântico.
pub proof fn lei_variavel_tem_o_tipo_declarado(st: EstadoS, nome: Seq<char>)
    ensures
        buscar(st.escopos, nome) matches Some(t) ==> tipo_expr(st, ExprM::Variavel(nome))
            == Ok::<Tipo, ErroModelo>(t),
        buscar(st.escopos, nome) is None ==> (tipo_expr(st, ExprM::Variavel(nome)) matches Err(
            ErroModelo::Semantico { .. },
        )),
{
}

/// A análise de `tipo nome = valor`: redeclarar um nome no mesmo escopo é um
/// erro semântico; um valor de outro tipo é um erro de tipo; um valor do
/// tipo declarado é aceito, e depois `nome` tem esse tipo. O nome pode
/// repetir o de um escopo de fora (a declaração nova o esconde).
pub proof fn lei_declaracao_analisada(st: EstadoS, tipo: Tipo, nome: Seq<char>, valor: ExprM, linha: nat)
    requires
        st.escopos.len() >= 1,
    ensures
        tem_chave(st.escopos.last(), nome) ==> (analisar_instr(
            st,
            InstrM::Declarar { tipo, nome, valor, linha },
        ) matches Err(ErroModelo::Semantico { .. })),
        !tem_chave(st.escopos.last(), nome) && (tipo_expr(st, valor) matches Ok(t) && t != tipo)
            ==> (analisar_instr(st, InstrM::Declarar { tipo, nome, valor, linha }) matches Err(
            ErroModelo::Tipo { .. },
        )),
        !tem_chave(st.escopos.last(), nome) && tipo_expr(st, valor) == Ok::<Tipo, ErroModelo>(tipo)
            ==> (analisar_instr(st, InstrM::Declarar { tipo, nome, valor, linha }) matches Ok(s1)
            && buscar(s1.escopos, nome) == Some(tipo) && s1.funcoes == st.funcoes),
{
    if !tem_chave(st.escopos.last(), nome) && tipo_expr(st, valor) == Ok::<Tipo, ErroModelo>(tipo) {
        let i = st.escopos.len() - 1;
        lema_inserir_acha(st.escopos[i], nome, tipo);
        let es = st.escopos.update(i, inserir(st.escopos.last(), nome, tipo));
        lema_escopo_de(es, nome, i);
    }
}

/// `if` e `while` exigem uma condição booleana: outra é um erro de tipo.
/// Com uma condição booleana e blocos que passam na análise, a instrução é
/// aceita e deixa a análise como estava (o que os blocos declaram some com
/// eles).
pub proof fn lei_condicoes_booleanas(
    st: EstadoS,
    condicao: ExprM,
    verdadeiro: Seq<InstrM>,
    falso: Seq<InstrM>,
    linha: nat,
)
    ensures
        (tipo_expr(st, condicao) matches Ok(t) && t != Tipo::Boolean) ==> (analisar_instr(
            st,
            InstrM::While { condicao, bloco: verdadeiro, linha },
        ) matches Err(ErroModelo::Tipo { .. })),
        (tipo_expr(st, condicao) matches Ok(t) && t != Tipo::Boolean) ==> (analisar_instr(
            st,
            InstrM::If { condicao, verdadeiro, falso, linha },
        ) matches Err(ErroModelo::Tipo { .. })),
        tipo_expr(st, condicao) == Ok::<Tipo, ErroModelo>(Tipo::Boolean) && analisar_lista(
            abrir(st),
            verdadeiro,
        ) is Ok ==> analisar_instr(st, InstrM::While { condicao, bloco: verdadeiro, linha })
            == Ok::<EstadoS, ErroModelo>(st),
        tipo_expr(st, condicao) == Ok::<Tipo, ErroModelo>(Tipo::Boolean) && analisar_lista(
            abrir(st),
            verdadeiro,
        ) is Ok && analisar_lista(abrir(st), falso) is Ok ==> analisar_instr(
            st,
            InstrM::If { condicao, verdadeiro, falso, linha },
        ) == Ok::<EstadoS, ErroModelo>(st),
{
    if analisar_lista(abrir(st), verdadeiro) is Ok {
        lei_bloco_fecha_o_escopo(st, verdadeiro);
    }
    if analisar_lista(abrir(st), falso) is Ok {
        lei_bloco_fecha_o_escopo(st, falso);
    }
}

// ================================================================
// Leitura dos tokens
// ================================================================

/// Os operadores lidos pelo lexer: `+`, `-`, `*`, `/`, `%`, `=`, `>` e `<`
/// seguidos de `=` são um só token (`+=`, `-=`, `*=`, `/=`, `%=`, `==`,
/// `>=` e `<=`); sem o `=` são o operador simples. `!=` é a diferença, e um
/// `!` sem `=` é um erro léxico. A leitura continua logo depois do token.
pub proof fn lei_operadores_do_lexer(l: Seq<char>, i: int, n: nat)
    requires
        0 <= i,
        i + 1 < l.len(),
    ensures
        l[i] == '+' && l[i + 1] == '=' ==> lex_de(l, i, n) == prefixar(
            seq![token(TokenKind::MaisIgual, seq!['+', '='], n)],
            lex_de(l, i + 2, n),
        ),
        l[i] == '+' && l[i + 1] != '=' ==> lex_de(l, i, n) == prefixar(
            seq![token(TokenKind::Mais, seq!['+'], n)],
            lex_de(l, i + 1, n),
        ),
        l[i] == '-' && l[i + 1] == '=' ==> lex_de(l, i, n) == prefixar(
            seq![token(TokenKind::MenosIgual, seq!['-', '='], n)],
            lex_de(l, i + 2, n),
        ),
        l[i] == '-' && l[i + 1] != '=' ==> lex_de(l, i, n) == prefixar(
            seq![token(TokenKind::Menos, seq!['-'], n)],
            lex_de(l, i + 1, n),
        ),
        l[i] == '*' && l[i + 1] == '=' ==> lex_de(l, i, n) == prefixar(
            seq![token(TokenKind::MultiplicaIgual, seq!['*', '='], n)],
            lex_de(l, i + 2, n),
        ),
        l[i] == '*' && l[i + 1] != '=' ==> lex_de(l, i, n) == prefixar(
            seq![token(TokenKind::Multiplica, seq!['*'], n)],
            lex_de(l, i + 1, n),
        ),
        l[i] == '/' && l[i + 1] == '=' ==> lex_de(l, i, n) == prefixar(
            seq![token(TokenKind::DivideIgual, seq!['/', '='], n)],
            lex_de(l, i + 2, n),
        ),
        l[i] == '/' && l[i + 1] != '=' ==> lex_de(l, i, n) == prefixar(
            seq![token(TokenKind::Divide, seq!['/'], n)],
            lex_de(l, i + 1, n),
        ),
        l[i] == '%' && l[i + 1] == '=' ==> lex_de(l, i, n) == prefixar(
            seq![token(TokenKind::ModuloIgual, seq!['%', '='], n)],
            lex_de(l, i + 2, n),
        ),
        l[i] == '%' && l[i + 1] != '=' ==> lex_de(l, i, n) == prefixar(
            seq![token(TokenKind::Modulo, seq!['%'], n)],
            lex_de(l, i + 1, n),
        ),
        l[i] == '=' && l[i + 1] == '=' ==> lex_de(l, i, n) == prefixar(
            seq![token(TokenKind::IgualIgual, seq!['=', '='], n)],
            lex_de(l, i + 2, n),
        ),
        l[i] == '=' && l[i + 1] != '=' ==> lex_de(l, i, n) == prefixar(
            seq![token(TokenKind::Igual, seq!['='], n)],
            lex_de(l, i + 1, n),
        ),
        l[i] == '>' && l[i + 1] == '=' ==> lex_de(l, i, n) == prefixar(
            seq![token(TokenKind::MaiorIgual, seq!['>', '='], n)],
            lex_de(l, i + 2, n),
        ),
        l[i] == '>' && l[i + 1] != '=' ==> lex_de(l, i, n) == prefixar(
            seq![token(TokenKind::Maior, seq!['>'], n)],
            lex_de(l, i + 1, n),
        ),
        l[i] == '<' && l[i + 1] == '=' ==> lex_de(l, i, n) == prefixar(
            seq![token(TokenKind::MenorIgual, seq!['<', '='], n)],
            lex_de(l, i + 2, n),
        ),
        l[i] == '<' && l[i + 1] != '=' ==> lex_de(l, i, n) == prefixar(
            seq![token(TokenKind::Menor, seq!['<'], n)],
            lex_de(l, i + 1, n),
        ),
        l[i] == '!' && l[i + 1] == '=' ==> lex_de(l, i, n) == prefixar(
            seq![token(TokenKind::Diferente, seq!['!', '='], n)],
            lex_de(l, i + 2, n),
        ),
        l[i] == '!' && l[i + 1] != '=' ==> (lex_de(l, i, n) matches Err(ErroModelo::Lexico { .. })),
{
    reveal(lex_de);
    reveal(espaco_branco);
    reveal(alfabetico);
}

/// Só letras minúsculas ASCII.
pub open spec fn so_letras(w: Seq<char>) -> bool {
    forall|k: int| 0 <= k < w.len() ==> 'a' <= #[trigger] w[k] <= 'z'
}

/// A palavra `w` está na linha `l` a partir de `i`, inteira: depois dela a
/// linha acaba ou vem um caractere que não continua uma palavra.
pub open spec fn palavra_em(l: Seq<char>, i: int, w: Seq<char>) -> bool {
    &&& 0 <= i
    &&& i + w.len() <= l.len()
    &&& l.subrange(i, i + w.len() as int) == w
    &&& (i + w.len() == l.len() || !(alfanumerico(l[i + w.len()]) || l[i + w.len()] == '_'))
}

proof fn lema_so_letras(w: Seq<char>)
    requires
        1 <= w.len() <= 7,
        'a' <= w[0] <= 'z',
        w.len() > 1 ==> 'a' <= w[1] <= 'z',
        w.len() > 2 ==> 'a' <= w[2] <= 'z',
        w.len() > 3 ==> 'a' <= w[3] <= 'z',
        w.len() > 4 ==> 'a' <= w[4] <= 'z',
        w.len() > 5 ==> 'a' <= w[5] <= 'z',
        w.len() > 6 ==> 'a' <= w[6] <= 'z',
    ensures
        so_letras(w),
{
    assert forall|k: int| 0 <= k < w.len() implies 'a' <= #[trigger] w[k] <= 'z' by {
        assert(k == 0 || k == 1 || k == 2 || k == 3 || k == 4 || k == 5 || k == 6);
    }
}

proof fn lema_fim_da_palavra(l: Seq<char>, i: int, w: Seq<char>, j: int)
    requires
        palavra_em(l, i, w),
        so_letras(w),
        i <= j <= i + w.len(),
    ensures
        fim_palavra(l, j) == i + w.len(),
    decreases i + w.len() - j,
{
    reveal(alfanumerico);
    if j < i + w.len() {
        assert(l[j] == w[j - i]);
        lema_fim_da_palavra(l, i, w, j + 1);
    }
}

/// Uma palavra de letras minúsculas inteira na linha vira um token só, do
/// tipo que `palavra_chave` lhe dá, e a leitura continua depois dela.
proof fn lema_palavra(l: Seq<char>, i: int, w: Seq<char>, n: nat)
    requires
        palavra_em(l, i, w),
        so_letras(w),
        w.len() >= 1,
    ensures
        lex_de(l, i, n) == prefixar(
            seq![token(palavra_chave(w), w, n)],
            lex_de(l, i + w.len(), n),
        ),
{
    reveal(lex_de);
    reveal(espaco_branco);
    reveal(alfabetico);
    assert(l[i] == w[0]);
    lema_fim_da_palavra(l, i, w, i + 1);
}

/// O tipo de token de cada palavra reservada.
#[verifier::spinoff_prover]
proof fn lema_tipos_das_palavras()
    ensures
        palavra_chave("decimal"@) == TokenKind::Decimal,
        palavra_chave("string"@) == TokenKind::String,
        palavra_chave("boolean"@) == TokenKind::Boolean,
        palavra_chave("true"@) == TokenKind::Boolean,
        palavra_chave("false"@) == TokenKind::Boolean,
        palavra_chave("display"@) == TokenKind::Display,
        palavra_chave("if"@) == TokenKind::If,
        palavra_chave("else"@) == TokenKind::Else,
        palavra_chave("end"@) == TokenKind::End,
        palavra_chave("while"@) == TokenKind::While,
        palavra_chave("func"@) == TokenKind::Func,
        palavra_chave("return"@) == TokenKind::Return,
        palavra_chave("and"@) == TokenKind::And,
        palavra_chave("or"@) == TokenKind::Or,
        palavra_chave("not"@) == TokenKind::Not,
{
    assert("decimal"@.len() == 7 && "decimal"@[0] == 'd' && "decimal"@[1] == 'e') by {
        reveal_strlit("decimal");
    }
    assert("string"@.len() == 6 && "string"@[0] == 's' && "string"@[1] == 't') by {
        reveal_strlit("string");
    }
    assert("boolean"@.len() == 7 && "boolean"@[0] == 'b' && "boolean"@[1] == 'o') by {
        reveal_strlit("boolean");
    }
    assert("true"@.len() == 4 && "true"@[0] == 't' && "true"@[1] == 'r') by {
        reveal_strlit("true");
    }
    assert("false"@.len() == 5 && "false"@[0] == 'f' && "false"@[1] == 'a') by {
        reveal_strlit("false");
    }
    assert("display"@.len() == 7 && "display"@[0] == 'd' && "display"@[1] == 'i') by {
        reveal_strlit("display");
    }
    assert("if"@.len() == 2 && "if"@[0] == 'i' && "if"@[1] == 'f') by {
        reveal_strlit("if");
    }
    assert("else"@.len() == 4 && "else"@[0] == 'e' && "else"@[1] == 'l') by {
        reveal_strlit("else");
    }
    assert("end"@.len() == 3 && "end"@[0] == 'e' && "end"@[1] == 'n') by {
        reveal_strlit("end");
    }
    assert("while"@.len() == 5 && "while"@[0] == 'w' && "while"@[1] == 'h') by {
        reveal_strlit("while");
    }
    assert("func"@.len() == 4 && "func"@[0] == 'f' && "func"@[1] == 'u') by {
        reveal_strlit("func");
    }
    assert("return"@.len() == 6 && "return"@[0] == 'r' && "return"@[1] == 'e') by {
        reveal_strlit("return");
    }
    assert("and"@.len() == 3 && "and"@[0] == 'a' && "and"@[1] == 'n') by {
        reveal_strlit("and");
    }
    assert("or"@.len() == 2 && "or"@[0] == 'o' && "or"@[1] == 'r') by {
        reveal_strlit("or");
    }
    assert("not"@.len() == 3 && "not"@[0] == 'n' && "not"@[1] == 'o') by {
        reveal_strlit("not");
    }
}

/// As palavras reservadas: cada uma, inteira numa linha, é lida como o seu
/// próprio token (`true`, `false` e `boolean` são do tipo `Boolean`); a
/// leitura continua logo depois dela.
pub proof fn lei_palavras_reservadas(l: Seq<char>, i: int, n: nat)
    ensures
        palavra_em(l, i, "decimal"@) ==> lex_de(l, i, n) == prefixar(
            seq![token(TokenKind::Decimal, "decimal"@, n)],
            lex_de(l, i + 7, n),
        ),
        palavra_em(l, i, "string"@) ==> lex_de(l, i, n) == prefixar(
            seq![token(TokenKind::String, "string"@, n)],
            lex_de(l, i + 6, n),
        ),
        palavra_em(l, i, "boolean"@) ==> lex_de(l, i, n) == prefixar(
            seq![token(TokenKind::Boolean, "boolean"@, n)],
            lex_de(l, i + 7, n),
        ),
        palavra_em(l, i, "true"@) ==> lex_de(l, i, n) == prefixar(
            seq![token(TokenKind::Boolean, "true"@, n)],
            lex_de(l, i + 4, n),
        ),
        palavra_em(l, i, "false"@) ==> lex_de(l, i, n) == prefixar(
            seq![token(TokenKind::Boolean, "false"@, n)],
            lex_de(l, i + 5, n),
        ),
        palavra_em(l, i, "display"@) ==> lex_de(l, i, n) == prefixar(
            seq![token(TokenKind::Display, "display"@, n)],
            lex_de(l, i + 7, n),
        ),
        palavra_em(l, i, "if"@) ==> lex_de(l, i, n) == prefixar(
            seq![token(TokenKind::If, "if"@, n)],
            lex_de(l, i + 2, n),
        ),
        palavra_em(l, i, "else"@) ==> lex_de(l, i, n) == prefixar(
            seq![token(TokenKind::Else, "else"@, n)],
            lex_de(l, i + 4, n),
        ),
        palavra_em(l, i, "end"@) ==> lex_de(l, i, n) == prefixar(
            seq![token(TokenKind::End, "end"@, n)],
            lex_de(l, i + 3, n),
        ),
        palavra_em(l, i, "while"@) ==> lex_de(l, i, n) == prefixar(
            seq![token(TokenKind::While, "while"@, n)],
            lex_de(l, i + 5, n),
        ),
        palavra_em(l, i, "func"@) ==> lex_de(l, i, n) == prefixar(
            seq![token(TokenKind::Func, "func"@, n)],
            lex_de(l, i + 4, n),
        ),
        palavra_em(l, i, "return"@) ==> lex_de(l, i, n) == prefixar(
            seq![token(TokenKind::Return, "return"@, n)],
            lex_de(l, i + 6, n),
        ),
        palavra_em(l, i, "and"@) ==> lex_de(l, i, n) == prefixar(
            seq![token(TokenKind::And, "and"@, n)],
            lex_de(l, i + 3, n),
        ),
        palavra_em(l, i, "or"@) ==> lex_de(l, i, n) == prefixar(
            seq![token(TokenKind::Or, "or"@, n)],
            lex_de(l, i + 2, n),
        ),
        palavra_em(l, i, "not"@) ==> lex_de(l, i, n) == prefixar(
            seq![token(TokenKind::Not, "not"@, n)],
            lex_de(l, i + 3, n),
        ),
{
    lema_tipos_das_palavras();
    reveal_strlit("decimal");
    reveal_strlit("string");
    reveal_strlit("boolean");
    reveal_strlit("true");
    reveal_strlit("false");
    reveal_strlit("display");
    reveal_strlit("if");
    reveal_strlit("else");
    reveal_strlit("end");
    reveal_strlit("while");
    reveal_strlit("func");
    reveal_strlit("return");
    reveal_strlit("and");
    reveal_strlit("or");
    reveal_strlit("not");
    if palavra_em(l, i, "decimal"@) {
        lema_so_letras("decimal"@);
        lema_palavra(l, i, "decimal"@, n);
    }
    if palavra_em(l, i, "string"@) {
        lema_so_letras("string"@);
        lema_palavra(l, i, "string"@, n);
    }
    if palavra_em(l, i, "boolean"@) {
        lema_so_letras("boolean"@);
        lema_palavra(l, i, "boolean"@, n);
    }
    if palavra_em(l, i, "true"@) {
        lema_so_letras("true"@);
        lema_palavra(l, i, "true"@, n);
    }
    if palavra_em(l, i, "false"@) {
        lema_so_letras("false"@);
        lema_palavra(l, i, "false"@, n);
    }
    if palavra_em(l, i, "display"@) {
        lema_so_letras("display"@);
        lema_palavra(l, i, "display"@, n);
    }
    if palavra_em(l, i, "if"@) {
        lema_so_letras("if"@);
        lema_palavra(l, i, "if"@, n);
    }
    if palavra_em(l, i, "else"@) {
        lema_so_letras("else"@);
        lema_palavra(l, i, "else"@, n);
    }
    if palavra_em(l, i, "end"@) {
        lema_so_letras("end"@);
        lema_palavra(l, i, "end"@, n);
    }
    if palavra_em(l, i, "while"@) {
        lema_so_letras("while"@);
        lema_palavra(l, i, "while"@, n);
    }
    if palavra_em(l, i, "func"@) {
        lema_so_letras("func"@);
        lema_palavra(l, i, "func"@, n);
    }
    if palavra_em(l, i, "return"@) {
        lema_so_letras("return"@);
        lema_palavra(l, i, "return"@, n);
    }
    if palavra_em(l, i, "and"@) {
        lema_so_letras("and"@);
        lema_palavra(l, i, "and"@, n);
    }
    if palavra_em(l, i, "or"@) {
        lema_so_letras("or"@);
        lema_palavra(l, i, "or"@, n);
    }
    if palavra_em(l, i, "not"@) {
        lema_so_letras("not"@);
        lema_palavra(l, i, "not"@, n);
    }
}

// ================================================================
// Precedência
// ================================================================

/// Um operador binário de algum nível até `n` (1: `* / %`, 2: `+ -`,
/// 3: comparações, 4: `and`, 5: `or`).
pub open spec fn operador_ate(n: nat, k: TokenKind) -> bool {
    exists|m: nat| 1 <= m <= n && #[trigger] operador_do_nivel(m, k)
}

proof fn lema_operando_para(ts: Seq<TokenModelo>, n: nat, p: int)
    requires
        1 <= n <= 5,
        p_operando(ts, n, p) is Ok,
    ensures
        !operador_ate((n - 1) as nat, token_em(ts, p_operando(ts, n, p)->Ok_0.1).kind),
    decreases ts.len() - p, 2 * n + 4,
{
    if n > 1 {
        lema_nivel_para(ts, (n - 1) as nat, p);
    }
}

proof fn lema_nivel_para(ts: Seq<TokenModelo>, n: nat, p: int)
    requires
        1 <= n <= 5,
        p_nivel(ts, n, p) is Ok,
    ensures
        !operador_ate(n, token_em(ts, p_nivel(ts, n, p)->Ok_0.1).kind),
    decreases ts.len() - p, 2 * n + 5, 1nat,
{
    lema_operando_para(ts, n, p);
    let (e, q) = p_operando(ts, n, p)->Ok_0;
    lema_resto_para(ts, n, e, q);
}

proof fn lema_resto_para(ts: Seq<TokenModelo>, n: nat, esq: ExprM, p: int)
    requires
        1 <= n <= 5,
        p_nivel_resto(ts, n, esq, p) is Ok,
        !operador_ate((n - 1) as nat, token_em(ts, p).kind),
    ensures
        !operador_ate(n, token_em(ts, p_nivel_resto(ts, n, esq, p)->Ok_0.1).kind),
    decreases ts.len() - p, 2 * n + 5, 0nat,
{
    let k = token_em(ts, p).kind;
    if operador_do_nivel(n, k) {
        let r = avanca(ts, p);
        lema_operando_para(ts, n, r);
        let (d, q) = p_operando(ts, n, r)->Ok_0;
        lema_resto_para(ts, n, binaria(k, esq, d), q);
    } else {
        assert forall|m: nat| 1 <= m <= n implies !#[trigger] operador_do_nivel(m, k) by {
            if m < n {
                assert(!operador_ate((n - 1) as nat, k));
            }
        }
    }
}

/// A precedência dos operadores: uma expressão lida em cada nível só pára
/// num token que não é operador desse nível nem de um nível mais forte.
/// Um termo de `*`, `/` e `%` absorve todos os `*`, `/` e `%` seguintes;
/// uma soma absorve ainda `+` e `-`; uma comparação, as comparações; e
/// uma expressão completa não pára em operador binário nenhum. Assim
/// `10 - 7 % 3` é `10 - (7 % 3)`.
pub proof fn lei_precedencia(ts: Seq<TokenModelo>, p: int)
    ensures
        p_nivel(ts, 1, p) matches Ok((_, q)) ==> {
            let k = token_em(ts, q).kind;
            k != TokenKind::Multiplica && k != TokenKind::Divide && k != TokenKind::Modulo
        },
        p_nivel(ts, 2, p) matches Ok((_, q)) ==> {
            let k = token_em(ts, q).kind;
            k != TokenKind::Multiplica && k != TokenKind::Divide && k != TokenKind::Modulo && k
                != TokenKind::Mais && k != TokenKind::Menos
        },
        p_nivel(ts, 3, p) matches Ok((_, q)) ==> {
            let k = token_em(ts, q).kind;
            k != TokenKind::Multiplica && k != TokenKind::Divide && k != TokenKind::Modulo && k
                != TokenKind::Mais && k != TokenKind::Menos && k != TokenKind::Maior && k
                != TokenKind::Menor && k != TokenKind::MaiorIgual && k != TokenKind::MenorIgual
                && k != TokenKind::IgualIgual && k != TokenKind::Diferente
        },
        p_expressao(ts, p) matches Ok((_, q)) ==> {
            let k = token_em(ts, q).kind;
            k != TokenKind::Multiplica && k != TokenKind::Divide && k != TokenKind::Modulo && k
                != TokenKind::Mais && k != TokenKind::Menos && k != TokenKind::Maior && k
                != TokenKind::Menor && k != TokenKind::MaiorIgual && k != TokenKind::MenorIgual
                && k != TokenKind::IgualIgual && k != TokenKind::Diferente && k != TokenKind::And
                && k != TokenKind::Or
        },
{
    if p_nivel(ts, 1, p) is Ok {
        lema_nivel_para(ts, 1, p);
        let k = token_em(ts, p_nivel(ts, 1, p)->Ok_0.1).kind;
        assert(!operador_do_nivel(1, k));
    }
    if p_nivel(ts, 2, p) is Ok {
        lema_nivel_para(ts, 2, p);
        let k = token_em(ts, p_nivel(ts, 2, p)->Ok_0.1).kind;
        assert(!operador_do_nivel(1, k) && !operador_do_nivel(2, k));
    }
    if p_nivel(ts, 3, p) is Ok {
        lema_nivel_para(ts, 3, p);
        let k = token_em(ts, p_nivel(ts, 3, p)->Ok_0.1).kind;
        assert(!operador_do_nivel(1, k) && !operador_do_nivel(2, k) && !operador_do_nivel(3, k));
    }
    if p_expressao(ts, p) is Ok {
        lema_nivel_para(ts, 5, p);
        let k = token_em(ts, p_nivel(ts, 5, p)->Ok_0.1).kind;
        assert(!operador_do_nivel(1, k) && !operador_do_nivel(2, k) && !operador_do_nivel(3, k)
            && !operador_do_nivel(4, k) && !operador_do_nivel(5, k));
    }
}

/// Um operando lido por `p_unario` seguido de um token que não é operador
/// até o nível `n` é, sozinho, a expressão desse nível.
proof fn lema_so_um_operando(ts: Seq<TokenModelo>, n: nat, p: int, e: ExprM, q: int)
    requires
        1 <= n <= 5,
        p_unario(ts, p) == Ok::<(ExprM, int), ErroModelo>((e, q)),
        p < q <= ts.len(),
        !operador_ate(n, token_em(ts, q).kind),
    ensures
        p_nivel(ts, n, p) == Ok::<(ExprM, int), ErroModelo>((e, q)),
    decreases n,
{
    if n > 1 {
        lema_so_um_operando(ts, (n - 1) as nat, p, e, q);
    }
    assert(p_operando(ts, n, p) == Ok::<(ExprM, int), ErroModelo>((e, q)));
    assert(!operador_do_nivel(n, token_em(ts, q).kind));
    assert(p_nivel_resto(ts, n, e, q) == Ok::<(ExprM, int), ErroModelo>((e, q)));
}

/// `texto op texto` seguido de `Fim`, com `op` do nível `l`, lido em
/// qualquer nível `n >= l`.
proof fn lema_uma_operacao(ts: Seq<TokenModelo>, l: nat, n: nat, p: int)
    requires
        1 <= l <= n <= 5,
        0 <= p,
        p + 3 < ts.len(),
        ts[p].kind == TokenKind::Texto,
        ts[p + 2].kind == TokenKind::Texto,
        ts[p + 3].kind == TokenKind::Fim,
        operador_do_nivel(l, ts[p + 1].kind),
        !operador_ate((l - 1) as nat, ts[p + 1].kind),
    ensures
        p_nivel(ts, n, p) == Ok::<(ExprM, int), ErroModelo>(
            (
                binaria(
                    ts[p + 1].kind,
                    ExprM::Texto(ts[p].texto),
                    ExprM::Texto(ts[p + 2].texto),
                ),
                p + 3,
            ),
        ),
    decreases n,
{
    let k = ts[p + 1].kind;
    let a = ExprM::Texto(ts[p].texto);
    let b = ExprM::Texto(ts[p + 2].texto);
    let e = binaria(k, a, b);
    assert(token_em(ts, p + 3).kind == TokenKind::Fim);
    assert(!operador_ate(5, TokenKind::Fim)) by {
        assert forall|m: nat| 1 <= m <= 5 implies !#[trigger] operador_do_nivel(m, TokenKind::Fim) by {}
    }
    assert(p_primario(ts, p + 2) == Ok::<(ExprM, int), ErroModelo>((b, p + 3)));
    assert(p_unario(ts, p + 2) == Ok::<(ExprM, int), ErroModelo>((b, p + 3)));
    if n == l {
        assert(p_primario(ts, p) == Ok::<(ExprM, int), ErroModelo>((a, p + 1)));
        assert(p_unario(ts, p) == Ok::<(ExprM, int), ErroModelo>((a, p + 1)));
        if l > 1 {
            lema_so_um_operando(ts, (l - 1) as nat, p, a, p + 1);
            lema_so_um_operando(ts, (l - 1) as nat, p + 2, b, p + 3);
        }
        assert(p_operando(ts, l, p) == Ok::<(ExprM, int), ErroModelo>((a, p + 1)));
        assert(p_operando(ts, l, p + 2) == Ok::<(ExprM, int), ErroModelo>((b, p + 3)));
        assert(!operador_do_nivel(l, TokenKind::Fim));
        assert(p_nivel_resto(ts, l, e, p + 3) == Ok::<(ExprM, int), ErroModelo>((e, p + 3)));
        assert(p_nivel_resto(ts, l, a, p + 1) == Ok::<(ExprM, int), ErroModelo>((e, p + 3)));
    } else {
        lema_uma_operacao(ts, l, (n - 1) as nat, p);
        assert(p_operando(ts, n, p) == Ok::<(ExprM, int), ErroModelo>((e, p + 3)));
        assert(!operador_do_nivel(n, TokenKind::Fim));
        assert(p_nivel_resto(ts, n, e, p + 3) == Ok::<(ExprM, int), ErroModelo>((e, p + 3)));
    }
}

/// Cada operador forma a sua expressão: numa sequência de tokens com
/// `texto op texto` e depois `Fim`, a expressão lida é o nó de `op` com os
/// dois textos, o da esquerda primeiro (`+` é soma, `-` subtração, `*`
/// multiplicação, `/` divisão, `%` resto, `==` igualdade, `!=` diferença,
/// e assim por diante); e `not texto` e `- texto` são a negação lógica e o
/// menos unário do texto.
pub proof fn lei_operadores_formam_as_expressoes(ts: Seq<TokenModelo>, p: int)
    requires
        0 <= p,
        p + 3 < ts.len(),
        ts[p].kind == TokenKind::Texto,
        ts[p + 2].kind == TokenKind::Texto,
        ts[p + 3].kind == TokenKind::Fim,
    ensures
        ts[p + 1].kind == TokenKind::Mais ==> p_expressao(ts, p) == Ok::<(ExprM, int), ErroModelo>(
            (ExprM::Soma(Box::new(ExprM::Texto(ts[p].texto)), Box::new(ExprM::Texto(ts[p + 2].texto))), p + 3),
        ),
        ts[p + 1].kind == TokenKind::Menos ==> p_expressao(ts, p) == Ok::<(ExprM, int), ErroModelo>(
            (ExprM::Subtracao(Box::new(ExprM::Texto(ts[p].texto)), Box::new(ExprM::Texto(ts[p + 2].texto))), p + 3),
        ),
        ts[p + 1].kind == TokenKind::Multiplica ==> p_expressao(ts, p) == Ok::<(ExprM, int), ErroModelo>(
            (ExprM::Multiplicacao(Box::new(ExprM::Texto(ts[p].texto)), Box::new(ExprM::Texto(ts[p + 2].texto))), p + 3),
        ),
        ts[p + 1].kind == TokenKind::Divide ==> p_expressao(ts, p) == Ok::<(ExprM, int), ErroModelo>(
            (ExprM::Divisao(Box::new(ExprM::Texto(ts[p].texto)), Box::new(ExprM::Texto(ts[p + 2].texto))), p + 3),
        ),
        ts[p + 1].kind == TokenKind::Modulo ==> p_expressao(ts, p) == Ok::<(ExprM, int), ErroModelo>(
            (ExprM::Modulo(Box::new(ExprM::Texto(ts[p].texto)), Box::new(ExprM::Texto(ts[p + 2].texto))), p + 3),
        ),
        ts[p + 1].kind == TokenKind::Maior ==> p_expressao(ts, p) == Ok::<(ExprM, int), ErroModelo>(
            (ExprM::Maior(Box::new(ExprM::Texto(ts[p].texto)), Box::new(ExprM::Texto(ts[p + 2].texto))), p + 3),
        ),
        ts[p + 1].kind == TokenKind::Menor ==> p_expressao(ts, p) == Ok::<(ExprM, int), ErroModelo>(
            (ExprM::Menor(Box::new(ExprM::Texto(ts[p].texto)), Box::new(ExprM::Texto(ts[p + 2].texto))), p + 3),
        ),
        ts[p + 1].kind == TokenKind::MaiorIgual ==> p_expressao(ts, p) == Ok::<(ExprM, int), ErroModelo>(
            (ExprM::MaiorIgual(Box::new(ExprM::Texto(ts[p].texto)), Box::new(ExprM::Texto(ts[p + 2].texto))), p + 3),
        ),
        ts[p + 1].kind == TokenKind::MenorIgual ==> p_expressao(ts, p) == Ok::<(ExprM, int), ErroModelo>(
            (ExprM::MenorIgual(Box::new(ExprM::Texto(ts[p].texto)), Box::new(ExprM::Texto(ts[p + 2].texto))), p + 3),
        ),
        ts[p + 1].kind == TokenKind::IgualIgual ==> p_expressao(ts, p) == Ok::<(ExprM, int), ErroModelo>(
            (ExprM::Igual(Box::new(ExprM::Texto(ts[p].texto)), Box::new(ExprM::Texto(ts[p + 2].texto))), p + 3),
        ),
        ts[p + 1].kind == TokenKind::Diferente ==> p_expressao(ts, p) == Ok::<(ExprM, int), ErroModelo>(
            (ExprM::Diferente(Box::new(ExprM::Texto(ts[p].texto)), Box::new(ExprM::Texto(ts[p + 2].texto))), p + 3),
        ),
        ts[p + 1].kind == TokenKind::And ==> p_expressao(ts, p) == Ok::<(ExprM, int), ErroModelo>(
            (ExprM::And(Box::new(ExprM::Texto(ts[p].texto)), Box::new(ExprM::Texto(ts[p + 2].texto))), p + 3),
        ),
        ts[p + 1].kind == TokenKind::Or ==> p_expressao(ts, p) == Ok::<(ExprM, int), ErroModelo>(
            (ExprM::Or(Box::new(ExprM::Texto(ts[p].texto)), Box::new(ExprM::Texto(ts[p + 2].texto))), p + 3),
        ),
{
    let k = ts[p + 1].kind;
    if operador_do_nivel(1, k) {
        lema_uma_operacao(ts, 1, 5, p);
    } else if operador_do_nivel(2, k) {
        lema_uma_operacao(ts, 2, 5, p);
    } else if operador_do_nivel(3, k) {
        lema_uma_operacao(ts, 3, 5, p);
    } else if operador_do_nivel(4, k) {
        lema_uma_operacao(ts, 4, 5, p);
    } else if operador_do_nivel(5, k) {
        lema_uma_operacao(ts, 5, 5, p);
    }
}

/// `not` e `-` prefixos: numa sequência com `not texto` (ou `- texto`) e
/// depois `Fim`, a expressão lida é a negação lógica (ou o menos unário) do
/// texto.
pub proof fn lei_operadores_prefixos(ts: Seq<TokenModelo>, p: int)
    requires
        0 <= p,
        p + 2 < ts.len(),
        ts[p + 1].kind == TokenKind::Texto,
        ts[p + 2].kind == TokenKind::Fim,
    ensures
        ts[p].kind == TokenKind::Not ==> p_expressao(ts, p) == Ok::<(ExprM, int), ErroModelo>(
            (ExprM::Not(Box::new(ExprM::Texto(ts[p + 1].texto))), p + 2),
        ),
        ts[p].kind == TokenKind::Menos ==> p_expressao(ts, p) == Ok::<(ExprM, int), ErroModelo>(
            (ExprM::Negativo(Box::new(ExprM::Texto(ts[p + 1].texto))), p + 2),
        ),
{
    let k = ts[p].kind;
    if k == TokenKind::Not || k == TokenKind::Menos {
        let a = ExprM::Texto(ts[p + 1].texto);
        let e = if k == TokenKind::Not { ExprM::Not(Box::new(a)) } else { ExprM::Negativo(Box::new(a)) };
        assert(p_primario(ts, p + 1) == Ok::<(ExprM, int), ErroModelo>((a, p + 2)));
        assert(p_unario(ts, p + 1) == Ok::<(ExprM, int), ErroModelo>((a, p + 2)));
        assert(p_unario(ts, p) == Ok::<(ExprM, int), ErroModelo>((e, p + 2)));
        assert(token_em(ts, p + 2).kind == TokenKind::Fim);
        assert(!operador_ate(5, TokenKind::Fim)) by {
            assert forall|m: nat| 1 <= m <= 5 implies !#[trigger] operador_do_nivel(m, TokenKind::Fim) by {}
        }
        lema_so_um_operando(ts, 5, p, e, p + 2);
    }
}

/// Cada operador de atribuição é lido como a sua operação: numa sequência
/// com `nome op texto` e depois `Fim`, `=` é a atribuição simples, `+=` a
/// de soma, `-=` a de subtração, `*=` a de multiplicação, `/=` a de divisão
/// e `%=` a de resto, sempre de `nome` com o valor à direita.
pub proof fn lei_operadores_de_atribuicao(ts: Seq<TokenModelo>, p: int)
    requires
        0 <= p,
        p + 3 < ts.len(),
        ts[p].kind == TokenKind::Identificador,
        ts[p + 2].kind == TokenKind::Texto,
        ts[p + 3].kind == TokenKind::Fim,
    ensures
        ts[p + 1].kind == TokenKind::Igual ==> p_atribuicao(ts, p) == Ok::<(InstrM, int), ErroModelo>(
            (
                InstrM::Atribuir {
                    nome: ts[p].texto,
                    operador: OperadorAtribuicao::Igual,
                    valor: ExprM::Texto(ts[p + 2].texto),
                    linha: ts[p].linha,
                },
                p + 3,
            ),
        ),
        ts[p + 1].kind == TokenKind::MaisIgual ==> p_atribuicao(ts, p) == Ok::<(InstrM, int), ErroModelo>(
            (
                InstrM::Atribuir {
                    nome: ts[p].texto,
                    operador: OperadorAtribuicao::Mais,
                    valor: ExprM::Texto(ts[p + 2].texto),
                    linha: ts[p].linha,
                },
                p + 3,
            ),
        ),
        ts[p + 1].kind == TokenKind::MenosIgual ==> p_atribuicao(ts, p) == Ok::<(InstrM, int), ErroModelo>(
            (
                InstrM::Atribuir {
                    nome: ts[p].texto,
                    operador: OperadorAtribuicao::Menos,
                    valor: ExprM::Texto(ts[p + 2].texto),
                    linha: ts[p].linha,
                },
                p + 3,
            ),
        ),
        ts[p + 1].kind == TokenKind::MultiplicaIgual ==> p_atribuicao(ts, p) == Ok::<(InstrM, int), ErroModelo>(
            (
                InstrM::Atribuir {
                    nome: ts[p].texto,
                    operador: OperadorAtribuicao::Multiplica,
                    valor: ExprM::Texto(ts[p + 2].texto),
                    linha: ts[p].linha,
                },
                p + 3,
            ),
        ),
        ts[p + 1].kind == TokenKind::DivideIgual ==> p_atribuicao(ts, p) == Ok::<(InstrM, int), ErroModelo>(
            (
                InstrM::Atribuir {
                    nome: ts[p].texto,
                    operador: OperadorAtribuicao::Divide,
                    valor: ExprM::Texto(ts[p + 2].texto),
                    linha: ts[p].linha,
                },
                p + 3,
            ),
        ),
        ts[p + 1].kind == TokenKind::ModuloIgual ==> p_atribuicao(ts, p) == Ok::<(InstrM, int), ErroModelo>(
            (
                InstrM::Atribuir {
                    nome: ts[p].texto,
                    operador: OperadorAtribuicao::Modulo,
                    valor: ExprM::Texto(ts[p + 2].texto),
                    linha: ts[p].linha,
                },
                p + 3,
            ),
        ),
{
    let b = ExprM::Texto(ts[p + 2].texto);
    assert(p_primario(ts, p + 2) == Ok::<(ExprM, int), ErroModelo>((b, p + 3)));
    assert(p_unario(ts, p + 2) == Ok::<(ExprM, int), ErroModelo>((b, p + 3)));
    assert(token_em(ts, p + 3).kind == TokenKind::Fim);
    assert(!operador_ate(5, TokenKind::Fim)) by {
        assert forall|m: nat| 1 <= m <= 5 implies !#[trigger] operador_do_nivel(m, TokenKind::Fim) by {}
    }
    lema_so_um_operando(ts, 5, p + 2, b, p + 3);
    assert(p_expressao(ts, p + 2) == Ok::<(ExprM, int), ErroModelo>((b, p + 3)));
}

// ================================================================
// Avaliação
// ================================================================

/// `not a` é a negação de `a`: quando `a` vale um booleano, `not a` vale o
/// oposto (no mesmo estado); e quando `not a` vale um booleano, `a` valia
/// o oposto.
pub proof fn lei_not_nega(st: EstadoR, a: ExprM, linha: nat, c: nat, x: bool)
    ensures
        avaliar(st, a, linha, c).1 == Ok::<ValorModelo, ErroModelo>(ValorModelo::Booleano(x))
            ==> avaliar(st, ExprM::Not(Box::new(a)), linha, c) == (
            avaliar(st, a, linha, c).0,
            Ok::<ValorModelo, ErroModelo>(ValorModelo::Booleano(!x)),
        ),
        avaliar(st, ExprM::Not(Box::new(a)), linha, c).1 == Ok::<ValorModelo, ErroModelo>(
            ValorModelo::Booleano(x),
        ) ==> avaliar(st, a, linha, c).1 == Ok::<ValorModelo, ErroModelo>(
            ValorModelo::Booleano(!x),
        ),
{
}

/// As contas entre dois decimais: `+`, `-` e `*` dão a soma, a diferença e
/// o produto (ou o erro de estouro, se o resultado não cabe); `/` e `%` dão
/// o quociente e o resto, e um divisor que vale zero é um erro de execução
/// ("Divisão por zero." e "Módulo por zero."). Nenhuma conta muda o estado.
pub proof fn lei_contas_decimais(st: EstadoR, x: DecimalModelo, y: DecimalModelo, linha: nat, c: nat)
    ensures
        avaliar(st, ExprM::Soma(Box::new(ExprM::Decimal(x)), Box::new(ExprM::Decimal(y))), linha, c)
            == (st, decimal_ou_estouro(soma_decimal(x, y), linha)),
        avaliar(
            st,
            ExprM::Subtracao(Box::new(ExprM::Decimal(x)), Box::new(ExprM::Decimal(y))),
            linha,
            c,
        ) == (st, decimal_ou_estouro(diferenca_decimal(x, y), linha)),
        avaliar(
            st,
            ExprM::Multiplicacao(Box::new(ExprM::Decimal(x)), Box::new(ExprM::Decimal(y))),
            linha,
            c,
        ) == (st, decimal_ou_estouro(produto_decimal(x, y), linha)),
        numerador(y) == 0 ==> avaliar(
            st,
            ExprM::Divisao(Box::new(ExprM::Decimal(x)), Box::new(ExprM::Decimal(y))),
            linha,
            c,
        ) == (st, Err::<ValorModelo, ErroModelo>(ErroModelo::Runtime { linha, mensagem: "Divisão por zero."@ })),
        numerador(y) != 0 ==> avaliar(
            st,
            ExprM::Divisao(Box::new(ExprM::Decimal(x)), Box::new(ExprM::Decimal(y))),
            linha,
            c,
        ) == (st, decimal_ou_estouro(quociente_decimal(x, y), linha)),
        numerador(y) == 0 ==> avaliar(
            st,
            ExprM::Modulo(Box::new(ExprM::Decimal(x)), Box::new(ExprM::Decimal(y))),
            linha,
            c,
        ) == (st, Err::<ValorModelo, ErroModelo>(ErroModelo::Runtime { linha, mensagem: "Módulo por zero."@ })),
        numerador(y) != 0 ==> avaliar(
            st,
            ExprM::Modulo(Box::new(ExprM::Decimal(x)), Box::new(ExprM::Decimal(y))),
            linha,
            c,
        ) == (st, decimal_ou_estouro(resto_decimal(x, y), linha)),
{
    assert(avaliar(st, ExprM::Decimal(x), linha, c) == (st, Ok::<ValorModelo, ErroModelo>(ValorModelo::Decimal(x))));
    assert(avaliar(st, ExprM::Decimal(y), linha, c) == (st, Ok::<ValorModelo, ErroModelo>(ValorModelo::Decimal(y))));
}

/// As comparações entre dois decimais comparam os seus valores numéricos
/// (`numerador / 10^escala`): `x < y` é verdadeiro exatamente quando o valor
/// de `x` é menor, `x > y` quando é maior, `x <= y` e `x >= y` incluem a
/// igualdade, e `==` e `!=` dizem se os valores são iguais (`1.0 == 1`).
pub proof fn lei_comparacoes_numericas(st: EstadoR, x: DecimalModelo, y: DecimalModelo, linha: nat, c: nat)
    ensures
        avaliar(st, ExprM::Menor(Box::new(ExprM::Decimal(x)), Box::new(ExprM::Decimal(y))), linha, c)
            == (st, Ok::<ValorModelo, ErroModelo>(ValorModelo::Booleano(
            numerador(x) * pot10(y.escala) < numerador(y) * pot10(x.escala),
        ))),
        avaliar(st, ExprM::Maior(Box::new(ExprM::Decimal(x)), Box::new(ExprM::Decimal(y))), linha, c)
            == (st, Ok::<ValorModelo, ErroModelo>(ValorModelo::Booleano(
            numerador(x) * pot10(y.escala) > numerador(y) * pot10(x.escala),
        ))),
        avaliar(
            st,
            ExprM::MenorIgual(Box::new(ExprM::Decimal(x)), Box::new(ExprM::Decimal(y))),
            linha,
            c,
        ) == (st, Ok::<ValorModelo, ErroModelo>(ValorModelo::Booleano(
            numerador(x) * pot10(y.escala) <= numerador(y) * pot10(x.escala),
        ))),
        avaliar(
            st,
            ExprM::MaiorIgual(Box::new(ExprM::Decimal(x)), Box::new(ExprM::Decimal(y))),
            linha,
            c,
        ) == (st, Ok::<ValorModelo, ErroModelo>(ValorModelo::Booleano(
            numerador(x) * pot10(y.escala) >= numerador(y) * pot10(x.escala),
        ))),
        avaliar(st, ExprM::Igual(Box::new(ExprM::Decimal(x)), Box::new(ExprM::Decimal(y))), linha, c)
            == (st, Ok::<ValorModelo, ErroModelo>(ValorModelo::Booleano(
            numerador(x) * pot10(y.escala) == numerador(y) * pot10(x.escala),
        ))),
        avaliar(
            st,
            ExprM::Diferente(Box::new(ExprM::Decimal(x)), Box::new(ExprM::Decimal(y))),
            linha,
            c,
        ) == (st, Ok::<ValorModelo, ErroModelo>(ValorModelo::Booleano(
            numerador(x) * pot10(y.escala) != numerador(y) * pot10(x.escala),
        ))),
{
    assert(avaliar(st, ExprM::Decimal(x), linha, c) == (st, Ok::<ValorModelo, ErroModelo>(ValorModelo::Decimal(x))));
    assert(avaliar(st, ExprM::Decimal(y), linha, c) == (st, Ok::<ValorModelo, ErroModelo>(ValorModelo::Decimal(y))));
}

/// `+` entre dois textos os junta, o primeiro antes do segundo; entre um
/// texto e um decimal é um erro de tipo.
pub proof fn lei_soma_de_textos(st: EstadoR, s: Seq<char>, t: Seq<char>, x: DecimalModelo, linha: nat, c: nat)
    ensures
        avaliar(st, ExprM::Soma(Box::new(ExprM::Texto(s)), Box::new(ExprM::Texto(t))), linha, c) == (
            st,
            Ok::<ValorModelo, ErroModelo>(ValorModelo::Texto(s + t)),
        ),
        avaliar(st, ExprM::Soma(Box::new(ExprM::Texto(s)), Box::new(ExprM::Decimal(x))), linha, c).1 matches Err(
            ErroModelo::Tipo { .. },
        ),
{
    assert(avaliar(st, ExprM::Texto(s), linha, c) == (st, Ok::<ValorModelo, ErroModelo>(ValorModelo::Texto(s))));
    assert(avaliar(st, ExprM::Texto(t), linha, c) == (st, Ok::<ValorModelo, ErroModelo>(ValorModelo::Texto(t))));
    assert(avaliar(st, ExprM::Decimal(x), linha, c) == (st, Ok::<ValorModelo, ErroModelo>(ValorModelo::Decimal(x))));
}

/// O menos unário troca o sinal de um decimal e mantém a escala; aplicado a
/// um texto é um erro de tipo.
pub proof fn lei_menos_unario(st: EstadoR, x: DecimalModelo, s: Seq<char>, linha: nat, c: nat)
    ensures
        avaliar(st, ExprM::Negativo(Box::new(ExprM::Decimal(x))), linha, c) matches (
            s1,
            Ok(ValorModelo::Decimal(r)),
        ) && s1 == st && numerador(r) == -numerador(x) && r.escala == x.escala,
        avaliar(st, ExprM::Negativo(Box::new(ExprM::Texto(s))), linha, c).1 matches Err(
            ErroModelo::Tipo { .. },
        ),
{
    assert(avaliar(st, ExprM::Decimal(x), linha, c) == (st, Ok::<ValorModelo, ErroModelo>(ValorModelo::Decimal(x))));
    assert(avaliar(st, ExprM::Texto(s), linha, c) == (st, Ok::<ValorModelo, ErroModelo>(ValorModelo::Texto(s))));
}

// ================================================================
// Execução
// ================================================================

/// Um `return` dentro do corpo de um `while` sai do laço com o valor
/// retornado: se, numa volta em que a condição vale verdadeiro, o corpo
/// retorna `v`, o `while` retorna `v`, no estado em que o corpo parou.
pub proof fn lei_return_sai_do_while(
    st: EstadoR,
    condicao: ExprM,
    bloco: Seq<InstrM>,
    linha: nat,
    c: nat,
    v: ValorModelo,
)
    requires
        c > 0,
        avaliar(st, condicao, linha, (c - 1) as nat).1 == Ok::<ValorModelo, ErroModelo>(
            ValorModelo::Booleano(true),
        ),
        executar_bloco(avaliar(st, condicao, linha, (c - 1) as nat).0, bloco, (c - 1) as nat).1
            == Ok::<Option<ValorModelo>, ErroModelo>(Some(v)),
    ensures
        repetir(st, condicao, bloco, linha, c) == (
            executar_bloco(avaliar(st, condicao, linha, (c - 1) as nat).0, bloco, (c - 1) as nat).0,
            Ok::<Option<ValorModelo>, ErroModelo>(Some(v)),
        ),
        executar_instrucao(st, InstrM::While { condicao, bloco, linha }, c) == repetir(
            st,
            condicao,
            bloco,
            linha,
            c,
        ),
{
}

/// Um `return` numa sequência de instruções pára a sequência: as instruções
/// seguintes não são executadas e a sequência retorna o mesmo valor.
pub proof fn lei_return_para_a_sequencia(st: EstadoR, s: Seq<InstrM>, c: nat, v: ValorModelo)
    requires
        s.len() > 0,
        executar_instrucao(st, s[0], c).1 == Ok::<Option<ValorModelo>, ErroModelo>(Some(v)),
    ensures
        executar_sequencia(st, s, c) == (
            executar_instrucao(st, s[0], c).0,
            Ok::<Option<ValorModelo>, ErroModelo>(Some(v)),
        ),
{
}

/// `if` executa o bloco verdadeiro quando a condição vale `true` e o bloco
/// falso quando vale `false`, no estado deixado pela condição; uma condição
/// que não é booleana é um erro de tipo.
pub proof fn lei_if_escolhe_o_ramo(
    st: EstadoR,
    condicao: ExprM,
    verdadeiro: Seq<InstrM>,
    falso: Seq<InstrM>,
    linha: nat,
    c: nat,
)
    ensures
        avaliar(st, condicao, linha, c).1 == Ok::<ValorModelo, ErroModelo>(ValorModelo::Booleano(true))
            ==> executar_instrucao(st, InstrM::If { condicao, verdadeiro, falso, linha }, c)
            == executar_bloco(avaliar(st, condicao, linha, c).0, verdadeiro, c),
        avaliar(st, condicao, linha, c).1 == Ok::<ValorModelo, ErroModelo>(ValorModelo::Booleano(false))
            ==> executar_instrucao(st, InstrM::If { condicao, verdadeiro, falso, linha }, c)
            == executar_bloco(avaliar(st, condicao, linha, c).0, falso, c),
        (avaliar(st, condicao, linha, c).1 matches Ok(v) && !(v is Booleano)) ==> (executar_instrucao(
            st,
            InstrM::If { condicao, verdadeiro, falso, linha },
            c,
        ).1 matches Err(ErroModelo::Tipo { .. })),
{
}

/// Um `while` cuja condição vale `false` termina sem executar o bloco e
/// sem retornar, no estado deixado pela condição.
pub proof fn lei_while_falso_termina(st: EstadoR, condicao: ExprM, bloco: Seq<InstrM>, linha: nat, c: nat)
    requires
        c > 0,
        avaliar(st, condicao, linha, (c - 1) as nat).1 == Ok::<ValorModelo, ErroModelo>(
            ValorModelo::Booleano(false),
        ),
    ensures
        executar_instrucao(st, InstrM::While { condicao, bloco, linha }, c) == (
            avaliar(st, condicao, linha, (c - 1) as nat).0,
            Ok::<Option<ValorModelo>, ErroModelo>(None),
        ),
{
}

/// Depois de uma volta em que a condição vale `true` e o bloco termina sem
/// retornar, o `while` continua: é o mesmo `while`, a partir do estado
/// deixado pelo bloco (com uma unidade de combustível a menos).
pub proof fn lei_while_verdadeiro_repete(st: EstadoR, condicao: ExprM, bloco: Seq<InstrM>, linha: nat, c: nat)
    requires
        c > 0,
        avaliar(st, condicao, linha, (c - 1) as nat).1 == Ok::<ValorModelo, ErroModelo>(
            ValorModelo::Booleano(true),
        ),
        executar_bloco(avaliar(st, condicao, linha, (c - 1) as nat).0, bloco, (c - 1) as nat).1
            == Ok::<Option<ValorModelo>, ErroModelo>(None),
    ensures
        executar_instrucao(st, InstrM::While { condicao, bloco, linha }, c) == executar_instrucao(
            executar_bloco(avaliar(st, condicao, linha, (c - 1) as nat).0, bloco, (c - 1) as nat).0,
            InstrM::While { condicao, bloco, linha },
            (c - 1) as nat,
        ),
{
}

/// `display` de um texto sem marcadores escreve exatamente esse texto numa
/// linha nova da saída, e `display` de um booleano escreve `true` ou
/// `false`; as variáveis e as funções não mudam.
#[verifier::spinoff_prover]
pub proof fn lei_display_escreve(st: EstadoR, s: Seq<char>, b: bool, linha: nat, c: nat)
    requires
        !s.contains('{'),
    ensures
        executar_instrucao(st, InstrM::Display { valor: ExprM::Texto(s), linha }, c) == (
            EstadoR { saida: st.saida.push(s), ..st },
            Ok::<Option<ValorModelo>, ErroModelo>(None),
        ),
        executar_instrucao(st, InstrM::Display { valor: ExprM::Booleano(b), linha }, c) == (
            EstadoR { saida: st.saida.push(if b { "true"@ } else { "false"@ }), ..st },
            Ok::<Option<ValorModelo>, ErroModelo>(None),
        ),
{
    reveal_strlit("true");
    reveal_strlit("false");
    assert(avaliar(st, ExprM::Texto(s), linha, c) == (st, Ok::<ValorModelo, ErroModelo>(ValorModelo::Texto(s))));
    assert(avaliar(st, ExprM::Booleano(b), linha, c) == (st, Ok::<ValorModelo, ErroModelo>(ValorModelo::Booleano(b))));
    lei_interpolacao_sem_marcadores(st.variaveis, s);
    let t: Seq<char> = if b { "true"@ } else { "false"@ };
    assert(!t.contains('{')) by {
        if t.contains('{') {
            let k = choose|k: int| 0 <= k < t.len() && t[k] == '{';
            assert(t[k] != '{');
        }
    }
    lei_interpolacao_sem_marcadores(st.variaveis, t);
}

/// Associar `v` a `k` numa tabela deixa `k` na tabela, com o valor `v`.
proof fn lema_inserir_acha<V>(s: Seq<(Seq<char>, V)>, k: Seq<char>, v: V)
    ensures
        tem_chave(inserir(s, k, v), k),
        valor_de(inserir(s, k, v), k) == Some(v),
{
    let r = inserir(s, k, v);
    if tem_chave(s, k) {
        lema_primeira_existe(chaves(s), k);
        let p = primeira(chaves(s), k);
        assert(chaves(r)[p] == k);
        assert forall|j: int| 0 <= j < p implies chaves(r)[j] != k by {
            assert(chaves(r)[j] == chaves(s)[j]);
        }
        lema_primeira(chaves(r), k, p);
    } else {
        let p = s.len() as int;
        assert(chaves(r)[p] == k);
        assert forall|j: int| 0 <= j < p implies chaves(r)[j] != k by {
            assert(chaves(r)[j] == chaves(s)[j]);
            if chaves(s)[j] == k {
                assert(tem_chave(s, k));
            }
        }
        lema_primeira(chaves(r), k, p);
    }
}

/// Depois de `tipo nome = valor`, procurar `nome` encontra o valor
/// calculado: a declaração vai para o escopo mais interno (o do estado
/// deixado pelo cálculo do valor), que é o primeiro onde a busca olha.
pub proof fn lei_declaracao_e_encontrada(st: EstadoR, tipo: Tipo, nome: Seq<char>, valor: ExprM, linha: nat, c: nat, v: ValorModelo)
    requires
        avaliar(st, valor, 0, c).0.variaveis.len() >= 1,
        avaliar(st, valor, 0, c).1 == Ok::<ValorModelo, ErroModelo>(v),
    ensures
        executar_instrucao(st, InstrM::Declarar { tipo, nome, valor, linha }, c).1 == Ok::<Option<ValorModelo>, ErroModelo>(None),
        buscar(executar_instrucao(st, InstrM::Declarar { tipo, nome, valor, linha }, c).0.variaveis, nome) == Some(v),
{
    let s1 = avaliar(st, valor, 0, c).0;
    let i = s1.variaveis.len() - 1;
    lema_inserir_acha(s1.variaveis[i], nome, v);
    let vs = s1.variaveis.update(i, inserir(s1.variaveis[i], nome, v));
    lema_escopo_de(vs, nome, i);
}

/// Uma chamada liga cada parâmetro ao argumento da mesma posição, executa o
/// corpo num escopo novo e dá o valor que o corpo retorna, voltando ao
/// estado de antes: chamar `f(x, y)` cujo corpo é `return x` com os
/// argumentos `s` e `t` dá `s`.
#[verifier::rlimit(80)]
#[verifier::spinoff_prover]
pub proof fn lei_chamada_liga_os_parametros(
    st: EstadoR,
    nome: Seq<char>,
    x: Seq<char>,
    y: Seq<char>,
    s: Seq<char>,
    t: Seq<char>,
    linha: nat,
    l: nat,
    c: nat,
)
    requires
        c > 0,
        x != y,
        valor_de(st.funcoes, nome) == Some(
            FuncaoM {
                parametros: seq![x, y],
                bloco: seq![InstrM::Return { valor: ExprM::Variavel(x), linha: l }],
            },
        ),
    ensures
        avaliar(
            st,
            ExprM::Chamada { nome, argumentos: seq![ExprM::Texto(s), ExprM::Texto(t)] },
            linha,
            c,
        ) == (st, Ok::<ValorModelo, ErroModelo>(ValorModelo::Texto(s))),
{
    let ps = seq![x, y];
    let args = seq![ExprM::Texto(s), ExprM::Texto(t)];
    let vazio = Seq::<(Seq<char>, ValorModelo)>::empty();
    let e1 = inserir(vazio, x, ValorModelo::Texto(s));
    assert(!tem_chave(vazio, x));
    assert(e1 =~= seq![(x, ValorModelo::Texto(s))]);
    assert(!tem_chave(e1, y)) by {
        assert(chaves(e1)[0] == x);
    }
    let esc = inserir(e1, y, ValorModelo::Texto(t));
    assert(esc =~= seq![(x, ValorModelo::Texto(s)), (y, ValorModelo::Texto(t))]);
    assert(ps.drop_first() =~= seq![y]);
    assert(args.drop_first() =~= seq![ExprM::Texto(t)]);
    assert(seq![y].drop_first() =~= Seq::<Seq<char>>::empty());
    assert(seq![ExprM::Texto(t)].drop_first() =~= Seq::<ExprM>::empty());
    assert(avaliar(st, ExprM::Texto(s), linha, c) == (st, Ok::<ValorModelo, ErroModelo>(ValorModelo::Texto(s))));
    assert(avaliar(st, ExprM::Texto(t), linha, c) == (st, Ok::<ValorModelo, ErroModelo>(ValorModelo::Texto(t))));
    assert(crate::semantica::avaliar_argumentos(st, Seq::<Seq<char>>::empty(), Seq::<ExprM>::empty(), esc, linha, c)
        == (st, Ok::<Seq<(Seq<char>, ValorModelo)>, ErroModelo>(esc)));
    assert(crate::semantica::avaliar_argumentos(st, seq![y], seq![ExprM::Texto(t)], e1, linha, c)
        == (st, Ok::<Seq<(Seq<char>, ValorModelo)>, ErroModelo>(esc)));
    assert(crate::semantica::avaliar_argumentos(st, ps, args, vazio, linha, c)
        == (st, Ok::<Seq<(Seq<char>, ValorModelo)>, ErroModelo>(esc)));
    let s1 = crate::semantica::empilhar(st, esc);
    let k = st.variaveis.len() as int;
    assert(s1.variaveis[k] == esc);
    assert(chaves(esc)[0] == x);
    lema_primeira(chaves(esc), x, 0);
    assert(valor_de(esc, x) == Some(ValorModelo::Texto(s)));
    lema_escopo_de(s1.variaveis, x, k);
    assert(buscar(s1.variaveis, x) == Some(ValorModelo::Texto(s)));
    let corpo = seq![InstrM::Return { valor: ExprM::Variavel(x), linha: l }];
    let cc = (c - 1) as nat;
    assert(avaliar(s1, ExprM::Variavel(x), l, cc) == (s1, Ok::<ValorModelo, ErroModelo>(ValorModelo::Texto(s))));
    assert(executar_instrucao(s1, corpo[0], cc) == (s1, Ok::<Option<ValorModelo>, ErroModelo>(Some(ValorModelo::Texto(s)))));
    assert(executar_sequencia(s1, corpo, cc) == (s1, Ok::<Option<ValorModelo>, ErroModelo>(Some(ValorModelo::Texto(s)))));
    assert(crate::semantica::desempilhar(s1).variaveis =~= st.variaveis);
}

/// Chamar uma função com um número de argumentos diferente do de
/// parâmetros é um erro de execução, e chamar uma função que não existe
/// também; nos dois casos o estado não muda.
pub proof fn lei_chamada_com_aridade_errada(st: EstadoR, nome: Seq<char>, argumentos: Seq<ExprM>, linha: nat, c: nat)
    ensures
        (valor_de(st.funcoes, nome) matches Some(f) && argumentos.len() != f.parametros.len())
            ==> (avaliar(st, ExprM::Chamada { nome, argumentos }, linha, c) matches (
            s1,
            Err(ErroModelo::Runtime { .. }),
        ) && s1 == st),
        valor_de(st.funcoes, nome) is None ==> (avaliar(
            st,
            ExprM::Chamada { nome, argumentos },
            linha,
            c,
        ) matches (s1, Err(ErroModelo::Runtime { .. })) && s1 == st),
{
}

// ================================================================
// Interpolação
// ================================================================

/// O nome não tem `{` nem `}` (como todo identificador da linguagem).
pub open spec fn sem_chaves(n: Seq<char>) -> bool {
    !n.contains('{') && !n.contains('}')
}

proof fn lema_marcador_proprio(n: Seq<char>, x: Seq<char>)
    ensures
        substituir_tudo(marcador(n), marcador(n), x) == x,
{
    let s = marcador(n);
    assert(s.len() >= 2);
    assert(s.take(s.len() as int) =~= s);
    assert(s.skip(s.len() as int) =~= Seq::<char>::empty());
    assert(substituir_tudo(Seq::<char>::empty(), s, x) == Seq::<char>::empty());
    assert(substituir_tudo(s, s, x) == x + substituir_tudo(s.skip(s.len() as int), s, x));
    assert(x + Seq::<char>::empty() =~= x);
}

proof fn lema_marcador_alheio(n: Seq<char>, m: Seq<char>, x: Seq<char>)
    requires
        sem_chaves(n),
        m != n,
    ensures
        substituir_tudo(marcador(n), marcador(m), x) == marcador(n),
{
    let s = marcador(n);
    let p = marcador(m);
    if p.len() <= s.len() {
        if s.take(p.len() as int) == p {
            if p.len() == s.len() {
                assert(s.take(p.len() as int) =~= s);
                assert(m =~= p.subrange(1, p.len() - 1));
                assert(n =~= s.subrange(1, s.len() - 1));
            } else {
                let j = p.len() - 1;
                assert(p[j] == '}');
                assert(s.take(p.len() as int)[j] == s[j]);
                assert(s[j] == n[j - 1]);
                assert(n.contains('}'));
            }
        }
        let d = s.drop_first();
        assert(d =~= n + seq!['}']);
        assert(!d.contains('{')) by {
            if d.contains('{') {
                let k = choose|k: int| 0 <= k < d.len() && d[k] == '{';
                if k < n.len() {
                    assert(n[k] == '{');
                    assert(n.contains('{'));
                }
            }
        }
        crate::leis::lema_substituir_sem_chave(d, p, x);
        assert(seq![s[0]] + d =~= s);
    }
}

proof fn lema_chaves_resto<V>(esc: Seq<(Seq<char>, V)>, n: Seq<char>)
    requires
        esc.len() > 0,
        esc[0].0 != n,
    ensures
        tem_chave(esc, n) == tem_chave(esc.drop_first(), n),
        tem_chave(esc, n) ==> valor_de(esc, n) == valor_de(esc.drop_first(), n),
{
    let d = esc.drop_first();
    assert forall|k: int| 0 <= k < d.len() implies chaves(d)[k] == chaves(esc)[k + 1] by {}
    if tem_chave(esc, n) {
        let w = choose|i: int| 0 <= i < chaves(esc).len() && chaves(esc)[i] == n;
        assert(w > 0);
        assert(chaves(d)[w - 1] == n);
        lema_primeira_existe(chaves(d), n);
        let q = primeira(chaves(d), n);
        assert forall|j: int| 0 <= j < q + 1 implies chaves(esc)[j] != n by {
            if j > 0 {
                assert(chaves(esc)[j] == chaves(d)[j - 1]);
            }
        }
        lema_primeira(chaves(esc), n, q + 1);
        assert(esc[q + 1] == d[q]);
    } else if tem_chave(d, n) {
        let w = choose|i: int| 0 <= i < chaves(d).len() && chaves(d)[i] == n;
        assert(chaves(esc)[w + 1] == n);
    }
}

proof fn lema_escopo_sem_o_nome(esc: Seq<(Seq<char>, ValorModelo)>, n: Seq<char>)
    requires
        sem_chaves(n),
        !tem_chave(esc, n),
    ensures
        interpolar_escopo(esc, marcador(n)) == marcador(n),
    decreases esc.len(),
{
    if esc.len() > 0 {
        assert(chaves(esc)[0] == esc[0].0);
        lema_marcador_alheio(n, esc[0].0, texto_valor(esc[0].1));
        lema_chaves_resto(esc, n);
        lema_escopo_sem_o_nome(esc.drop_first(), n);
    }
}

proof fn lema_escopo_com_o_nome(esc: Seq<(Seq<char>, ValorModelo)>, n: Seq<char>)
    requires
        sem_chaves(n),
        tem_chave(esc, n),
        !texto_valor(valor_de(esc, n)->Some_0).contains('{'),
    ensures
        interpolar_escopo(esc, marcador(n)) == texto_valor(valor_de(esc, n)->Some_0),
    decreases esc.len(),
{
    if esc[0].0 == n {
        assert(chaves(esc)[0] == n);
        lema_primeira(chaves(esc), n, 0);
        lema_marcador_proprio(n, texto_valor(esc[0].1));
        lema_interpolar_escopo_sem_chave(esc.drop_first(), texto_valor(esc[0].1));
    } else {
        lema_marcador_alheio(n, esc[0].0, texto_valor(esc[0].1));
        lema_chaves_resto(esc, n);
        lema_escopo_com_o_nome(esc.drop_first(), n);
    }
}

/// A interpolação troca o marcador `{n}` pelo valor da variável `n` em
/// qualquer escopo, não só no global: se `n` está declarada num único
/// escopo (seja ele qual for), o marcador vira o texto do valor que uma
/// busca por `n` encontra. (Supõe-se que o texto do valor não tenha `{`,
/// para que variáveis de escopos seguintes não o alterem.)
pub proof fn lei_interpolacao_de_qualquer_escopo(
    variaveis: Seq<Seq<(Seq<char>, ValorModelo)>>,
    n: Seq<char>,
    i: int,
)
    requires
        sem_chaves(n),
        0 <= i < variaveis.len(),
        tem_chave(variaveis[i], n),
        forall|j: int| 0 <= j < variaveis.len() && j != i ==> !tem_chave(#[trigger] variaveis[j], n),
        !texto_valor(valor_de(variaveis[i], n)->Some_0).contains('{'),
    ensures
        buscar(variaveis, n) == valor_de(variaveis[i], n),
        interpolar(variaveis, marcador(n)) == texto_valor(buscar(variaveis, n)->Some_0),
    decreases variaveis.len(),
{
    lema_escopo_de(variaveis, n, i);
    let d = variaveis.drop_first();
    if i == 0 {
        lema_escopo_com_o_nome(variaveis[0], n);
        lei_interpolacao_sem_marcadores(d, texto_valor(valor_de(variaveis[0], n)->Some_0));
    } else {
        lema_escopo_sem_o_nome(variaveis[0], n);
        assert forall|j: int| 0 <= j < d.len() && j != i - 1 implies !tem_chave(#[trigger] d[j], n) by {
            assert(d[j] == variaveis[j + 1]);
        }
        assert(d[i - 1] == variaveis[i]);
        lei_interpolacao_de_qualquer_escopo(d, n, i - 1);
    }
}

} // verus!
