//! Propriedades da linguagem que valem para todas as entradas, provadas
//! sobre os modelos que os contratos do lexer, do parser, do analisador e do
//! interpretador usam.
use vstd::prelude::*;
use crate::ast::{ExprM, InstrM, OperadorAtribuicao};
use crate::decimal::{DecimalModelo, numerador, pot10, valor_igual};
use crate::gramatica::{avanca, avancou, p_consumir, p_instrucao, p_programa, terminada, token_em};
use crate::lexer::{
    TokenKind, TokenModelo, fim_numero, fim_palavra, lex_de, lex_linhas, lex_spec, linhas,
    conta_pontos, lema_fim_numero, lema_fim_palavra, lema_linhas_ultima, lema_posicao_de,
    palavra_chave, par_operador, posicao_de, prefixar, sinal_simples, token,
};
use crate::semantica::{
    Comparacao, EstadoR, aplicar_atribuicao, avaliar, combinar, comparacao_decimal,
    comparar_valores, desempilhar, empilhar, interpolar, interpolar_escopo, marcador,
};
use crate::semantico::{EstadoS, abrir, analisar_lista, fechar, lema_lista_preserva};
use crate::tabela::{buscar, escopo_de, lema_escopo_de, lema_escopo_existe, tem_chave};
use crate::texto::{alfabetico, alfanumerico, digito, espaco_branco, substituir_tudo};
use crate::valores::{ErroModelo, ValorModelo, texto_valor, tipo_valor, valores_iguais};

verus! {

// ================================================================
// Lexer e parser
// ================================================================

/// Todo código que o lexer aceita vira uma sequência de tokens terminada em
/// `Fim`, e o `Fim` fica na linha seguinte à última linha do código.
pub proof fn lei_lex_termina_em_fim(codigo: Seq<char>)
    requires
        lex_spec(codigo) is Ok,
    ensures
        terminada(lex_spec(codigo)->Ok_0),
        lex_spec(codigo)->Ok_0.last().linha == linhas(codigo).len() + 1,
{
}

/// A leitura de um programa só termina bem no token `Fim`, e as instruções
/// lidas antes continuam no começo do resultado.
pub proof fn lei_programa_ate_o_fim(ts: Seq<TokenModelo>, acc: Seq<InstrM>, p: int)
    requires
        p_programa(ts, acc, p) is Ok,
    ensures
        token_em(ts, p_programa(ts, acc, p)->Ok_0.1).kind == TokenKind::Fim,
        p_programa(ts, acc, p)->Ok_0.0.len() >= acc.len(),
        p_programa(ts, acc, p)->Ok_0.0.subrange(0, acc.len() as int) == acc,
    decreases ts.len() - p,
{
    if token_em(ts, p).kind == TokenKind::Fim {
        assert(acc.subrange(0, acc.len() as int) =~= acc);
    } else {
        let (i, q) = p_instrucao(ts, p)->Ok_0;
        if avancou(ts, p, q) {
            lei_programa_ate_o_fim(ts, acc.push(i), q);
            let s = p_programa(ts, acc.push(i), q)->Ok_0.0;
            assert(s.subrange(0, acc.len() as int) =~= s.subrange(
                0,
                acc.len() + 1int,
            ).subrange(0, acc.len() as int));
            assert(acc.push(i).subrange(0, acc.len() as int) =~= acc);
        }
    }
}

/// Nenhum token da lista é `Fim`, e todos estão na linha `n`.
pub open spec fn tokens_da_linha(r: Result<Seq<TokenModelo>, ErroModelo>, n: nat) -> bool {
    r matches Ok(t) ==> forall|k: int|
        0 <= k < t.len() ==> (#[trigger] t[k]).kind != TokenKind::Fim && t[k].linha == n
}

/// Nenhum token da lista é `Fim`, as linhas vão de `n` a `n + m - 1` e não
/// decrescem ao longo da lista.
pub open spec fn tokens_das_linhas(r: Result<Seq<TokenModelo>, ErroModelo>, n: nat, m: nat) -> bool {
    r matches Ok(t) ==> {
        &&& forall|k: int|
            0 <= k < t.len() ==> (#[trigger] t[k]).kind != TokenKind::Fim && n <= t[k].linha < n
                + m
        &&& forall|a: int, b: int| 0 <= a <= b < t.len() ==> (#[trigger] t[a]).linha <= (
        #[trigger] t[b]).linha
    }
}

proof fn lema_prefixar_sem_fim(x: TokenModelo, r: Result<Seq<TokenModelo>, ErroModelo>)
    requires
        x.kind != TokenKind::Fim,
        tokens_da_linha(r, x.linha),
    ensures
        tokens_da_linha(prefixar(seq![x], r), x.linha),
{
    match r {
        Ok(u) => {
            let t = seq![x] + u;
            assert forall|k: int| 0 <= k < t.len() implies (#[trigger] t[k]).kind
                != TokenKind::Fim && t[k].linha == x.linha by {
                if k > 0 {
                    assert(t[k] == u[k - 1]);
                }
            }
        },
        Err(_) => {},
    }
}

/// Nenhum token de uma linha é `Fim`.
proof fn lema_linha_sem_fim(l: Seq<char>, i: int, n: nat)
    ensures
        tokens_da_linha(lex_de(l, i, n), n),
    decreases l.len() - i,
{
    reveal(lex_de);
    if 0 <= i < l.len() {
        let c = l[i];
        if espaco_branco(c) {
            lema_linha_sem_fim(l, i + 1, n);
        } else if c == '#' {
        } else if c == '"' {
            match posicao_de(l.skip(i + 1), '"') {
                Some(k) => {
                    if 0 <= k && i + 2 + k <= l.len() {
                        lema_linha_sem_fim(l, i + 2 + k, n);
                        lema_prefixar_sem_fim(
                            token(TokenKind::Texto, l.subrange(i + 1, i + 1 + k), n),
                            lex_de(l, i + 2 + k, n),
                        );
                    }
                },
                None => {},
            }
        } else if digito(c) {
            let k = fim_numero(l, i + 1);
            if i < k <= l.len() {
                lema_linha_sem_fim(l, k, n);
                lema_prefixar_sem_fim(token(TokenKind::Numero, l.subrange(i, k), n), lex_de(l, k, n));
            }
        } else if alfabetico(c) || c == '_' {
            let k = fim_palavra(l, i + 1);
            if i < k <= l.len() {
                let w = l.subrange(i, k);
                lema_linha_sem_fim(l, k, n);
                lema_prefixar_sem_fim(token(palavra_chave(w), w, n), lex_de(l, k, n));
            }
        } else {
            match par_operador(c) {
                Some((simples, duplo)) => {
                    if i + 1 < l.len() && l[i + 1] == '=' {
                        lema_linha_sem_fim(l, i + 2, n);
                        lema_prefixar_sem_fim(token(duplo, seq![c, '='], n), lex_de(l, i + 2, n));
                    } else {
                        lema_linha_sem_fim(l, i + 1, n);
                        lema_prefixar_sem_fim(token(simples, seq![c], n), lex_de(l, i + 1, n));
                    }
                },
                None => {
                    if c == '!' {
                        if i + 1 < l.len() && l[i + 1] == '=' {
                            lema_linha_sem_fim(l, i + 2, n);
                            lema_prefixar_sem_fim(
                                token(TokenKind::Diferente, seq!['!', '='], n),
                                lex_de(l, i + 2, n),
                            );
                        }
                    } else {
                        match sinal_simples(c) {
                            Some(k) => {
                                lema_linha_sem_fim(l, i + 1, n);
                                lema_prefixar_sem_fim(token(k, seq![c], n), lex_de(l, i + 1, n));
                            },
                            None => {},
                        }
                    }
                },
            }
        }
    }
}

/// Nenhum token das linhas é `Fim`.
proof fn lema_linhas_sem_fim(ls: Seq<Seq<char>>, n: nat)
    ensures
        tokens_das_linhas(lex_linhas(ls, n), n, ls.len()),
    decreases ls.len(),
{
    reveal(lex_linhas);
    if ls.len() > 0 {
        lema_linha_sem_fim(ls[0], 0, n);
        lema_linhas_sem_fim(ls.drop_first(), n + 1);
        match lex_linhas(ls, n) {
            Ok(t) => {
                let u = lex_de(ls[0], 0, n)->Ok_0;
                let v = lex_linhas(ls.drop_first(), n + 1)->Ok_0;
                assert(t == u + v);
                assert forall|k: int| 0 <= k < t.len() implies (#[trigger] t[k]).kind
                    != TokenKind::Fim && n <= t[k].linha < n + ls.len() by {
                    if k < u.len() {
                        assert(t[k] == u[k]);
                    } else {
                        assert(t[k] == v[k - u.len()]);
                    }
                }
                assert forall|a: int, b: int| 0 <= a <= b < t.len() implies (#[trigger] t[a]).linha
                    <= (#[trigger] t[b]).linha by {
                    if b < u.len() {
                        assert(t[a] == u[a] && t[b] == u[b]);
                    } else if a < u.len() {
                        assert(t[a] == u[a] && t[b] == v[b - u.len()]);
                    } else {
                        assert(t[a] == v[a - u.len()] && t[b] == v[b - u.len()]);
                    }
                }
            },
            Err(_) => {},
        }
    }
}

/// As linhas dos tokens: cada token está numa linha do código (o `Fim`, na
/// seguinte à última), e as linhas não decrescem ao longo da lista.
pub proof fn lei_lex_linhas_em_ordem(codigo: Seq<char>)
    requires
        lex_spec(codigo) is Ok,
    ensures
        ({
            let ts = lex_spec(codigo)->Ok_0;
            &&& forall|k: int| 0 <= k < ts.len() ==> 1 <= (#[trigger] ts[k]).linha <= linhas(codigo).len() + 1
            &&& forall|a: int, b: int| 0 <= a <= b < ts.len() ==> (#[trigger] ts[a]).linha <= (
            #[trigger] ts[b]).linha
        }),
{
    lema_linhas_sem_fim(linhas(codigo), 1);
    let t = lex_linhas(linhas(codigo), 1)->Ok_0;
    let ts = lex_spec(codigo)->Ok_0;
    let m = linhas(codigo).len();
    assert forall|k: int| 0 <= k < ts.len() implies 1 <= (#[trigger] ts[k]).linha <= m + 1 by {
        if k < t.len() {
            assert(ts[k] == t[k]);
        }
    }
    assert forall|a: int, b: int| 0 <= a <= b < ts.len() implies (#[trigger] ts[a]).linha <= (
    #[trigger] ts[b]).linha by {
        if b < t.len() {
            assert(ts[a] == t[a] && ts[b] == t[b]);
        } else if a < t.len() {
            assert(ts[a] == t[a]);
        }
    }
}

/// O único `Fim` que o lexer produz é o último token.
pub proof fn lei_lex_um_so_fim(codigo: Seq<char>)
    requires
        lex_spec(codigo) is Ok,
    ensures
        forall|k: int|
            0 <= k < lex_spec(codigo)->Ok_0.len() - 1 ==> (#[trigger] lex_spec(
                codigo,
            )->Ok_0[k]).kind != TokenKind::Fim,
{
    lema_linhas_sem_fim(linhas(codigo), 1);
    let t = lex_linhas(linhas(codigo), 1)->Ok_0;
    let ts = lex_spec(codigo)->Ok_0;
    assert forall|k: int| 0 <= k < ts.len() - 1 implies (#[trigger] ts[k]).kind
        != TokenKind::Fim by {
        assert(ts[k] == t[k]);
    }
}

/// Sobre os tokens do lexer, avançar ou consumir a partir de uma posição
/// válida fica entre os tokens, nunca recua e, no `Fim`, não sai do lugar.
pub proof fn lei_cursor_nao_passa_do_fim(codigo: Seq<char>, p: int, k: TokenKind)
    requires
        lex_spec(codigo) is Ok,
        0 <= p < lex_spec(codigo)->Ok_0.len(),
    ensures
        ({
            let ts = lex_spec(codigo)->Ok_0;
            &&& p <= avanca(ts, p) < ts.len()
            &&& ts[p].kind == TokenKind::Fim ==> avanca(ts, p) == p
            &&& p_consumir(ts, p, k) matches Ok((_, q)) ==> p <= q < ts.len()
            &&& (p_consumir(ts, p, k) is Ok && ts[p].kind == TokenKind::Fim) ==> p_consumir(
                ts,
                p,
                k,
            )->Ok_0.1 == p
        }),
{
    lei_lex_um_so_fim(codigo);
    let ts = lex_spec(codigo)->Ok_0;
    assert(terminada(ts));
    if ts[p].kind == TokenKind::Fim && p < ts.len() - 1 {
        assert(ts[p].kind != TokenKind::Fim);
    }
}

/// Se `c` ocorre em `s`, `posicao_de` dá a sua primeira ocorrência.
proof fn lema_posicao_existe(s: Seq<char>, c: char)
    requires
        exists|i: int| 0 <= i < s.len() && s[i] == c,
    ensures
        posicao_de(s, c) matches Some(p) && 0 <= p < s.len() && s[p] == c && forall|j: int|
            0 <= j < p ==> s[j] != c,
    decreases s.len(),
{
    if s[0] == c {
        lema_posicao_de(s, c, 0);
    } else {
        let d = s.drop_first();
        let w = choose|i: int| 0 <= i < s.len() && s[i] == c;
        assert(d[w - 1] == s[w]);
        lema_posicao_existe(d, c);
        let p = posicao_de(d, c)->Some_0 + 1;
        assert forall|j: int| 0 <= j < p implies s[j] != c by {
            if j > 0 {
                assert(s[j] == d[j - 1]);
            }
        }
        assert(s[p] == d[p - 1]);
        lema_posicao_de(s, c, p);
    }
}

/// `x` é `l` seguido de um espaço e de mais caracteres.
pub open spec fn estende_com_espaco(l: Seq<char>, x: Seq<char>) -> bool {
    &&& x.len() > l.len()
    &&& x[l.len() as int] == ' '
    &&& forall|k: int| 0 <= k < l.len() ==> x[k] == l[k]
}

proof fn lema_fim_numero_estendido(l: Seq<char>, x: Seq<char>, j: int)
    requires
        estende_com_espaco(l, x),
        0 <= j <= l.len(),
    ensures
        fim_numero(x, j) == fim_numero(l, j),
    decreases l.len() - j,
{
    if j < l.len() {
        assert(x[j] == l[j]);
        lema_fim_numero_estendido(l, x, j + 1);
    }
}

proof fn lema_fim_palavra_estendida(l: Seq<char>, x: Seq<char>, j: int)
    requires
        estende_com_espaco(l, x),
        0 <= j <= l.len(),
    ensures
        fim_palavra(x, j) == fim_palavra(l, j),
    decreases l.len() - j,
{
    if j < l.len() {
        assert(x[j] == l[j]);
        lema_fim_palavra_estendida(l, x, j + 1);
    } else {
        assert(!alfanumerico(' ')) by {
            reveal(alfanumerico);
        }
    }
}

/// Numa linha que o lexer aceita, acrescentar um espaço e um comentário não
/// muda os tokens a partir de nenhuma posição.
proof fn lema_comentario_no_fim(l: Seq<char>, s: Seq<char>, i: int, n: nat)
    requires
        0 <= i <= l.len(),
        lex_de(l, i, n) is Ok,
    ensures
        lex_de(l + seq![' ', '#'] + s, i, n) == lex_de(l, i, n),
    decreases l.len() - i,
{
    let x = l + seq![' ', '#'] + s;
    assert(estende_com_espaco(l, x));
    assert(x[l.len() + 1int] == '#');
    assert(espaco_branco(' ') && !espaco_branco('#')) by {
        reveal(espaco_branco);
    }
    reveal(lex_de);
    if i == l.len() {
        assert(lex_de(x, i + 1, n) == Ok::<Seq<TokenModelo>, ErroModelo>(Seq::empty()));
    } else {
        let c = l[i];
        assert(x[i] == c);
        if espaco_branco(c) {
            lema_comentario_no_fim(l, s, i + 1, n);
        } else if c == '#' {
        } else if c == '"' {
            let r = posicao_de(l.skip(i + 1), '"');
            assert(r is Some);
            lema_posicao_existe(l.skip(i + 1), '"');
            let k = r->Some_0;
            assert(x.skip(i + 1)[k] == l.skip(i + 1)[k]);
            assert forall|j: int| 0 <= j < k implies #[trigger] x.skip(i + 1)[j] != '"' by {
                assert(x.skip(i + 1)[j] == l.skip(i + 1)[j]);
            }
            lema_posicao_de(x.skip(i + 1), '"', k);
            assert(x.subrange(i + 1, i + 1 + k) =~= l.subrange(i + 1, i + 1 + k));
            lema_comentario_no_fim(l, s, i + 2 + k, n);
        } else if digito(c) {
            lema_fim_numero(l, i + 1);
            lema_fim_numero_estendido(l, x, i + 1);
            let k = fim_numero(l, i + 1);
            assert(x.subrange(i, k) =~= l.subrange(i, k));
            if conta_pontos(l.subrange(i, k)) <= 1 {
                lema_comentario_no_fim(l, s, k, n);
            }
        } else if alfabetico(c) || c == '_' {
            lema_fim_palavra(l, i + 1);
            lema_fim_palavra_estendida(l, x, i + 1);
            let k = fim_palavra(l, i + 1);
            assert(x.subrange(i, k) =~= l.subrange(i, k));
            lema_comentario_no_fim(l, s, k, n);
        } else {
            if i + 1 < l.len() {
                assert(x[i + 1] == l[i + 1]);
            }
            match par_operador(c) {
                Some(_) => {
                    if i + 1 < l.len() && l[i + 1] == '=' {
                        lema_comentario_no_fim(l, s, i + 2, n);
                    } else {
                        lema_comentario_no_fim(l, s, i + 1, n);
                    }
                },
                None => {
                    if c == '!' {
                        lema_comentario_no_fim(l, s, i + 2, n);
                    } else {
                        lema_comentario_no_fim(l, s, i + 1, n);
                    }
                },
            }
        }
    }
}

/// Um comentário: numa linha que o lexer aceita, o que vem depois de
/// ` #` é ignorado, mesmo que fossem caracteres que ele recusaria.
pub proof fn lei_comentario_ignorado(codigo: Seq<char>, s: Seq<char>)
    requires
        codigo.len() > 0,
        forall|k: int| 0 <= k < codigo.len() ==> codigo[k] != '\n',
        forall|k: int| 0 <= k < s.len() ==> s[k] != '\n',
        lex_spec(codigo) is Ok,
    ensures
        lex_spec(codigo + seq![' ', '#'] + s) == lex_spec(codigo),
{
    let x = codigo + seq![' ', '#'] + s;
    assert forall|k: int| 0 <= k < x.len() implies x[k] != '\n' by {
        if k >= codigo.len() + 2 {
            assert(x[k] == s[k - codigo.len() - 2]);
        }
    }
    lema_linhas_ultima(codigo);
    lema_linhas_ultima(x);
    reveal(lex_linhas);
    assert(seq![codigo].drop_first() =~= Seq::<Seq<char>>::empty());
    assert(seq![x].drop_first() =~= Seq::<Seq<char>>::empty());
    assert(lex_de(codigo, 0, 1) is Ok);
    lema_comentario_no_fim(codigo, s, 0, 1);
}

// ================================================================
// Escopos
// ================================================================

/// Abrir e depois fechar um escopo na análise devolve o estado de antes.
pub proof fn lei_escopo_da_analise(st: EstadoS)
    ensures
        fechar(abrir(st)) == st,
{
    assert(abrir(st).escopos.drop_last() =~= st.escopos);
}

/// Abrir um escopo na análise não muda as funções nem o que cada nome
/// encontra: o escopo novo está vazio.
pub proof fn lei_abrir_escopo_mantem_as_buscas(st: EstadoS, nome: Seq<char>)
    ensures
        abrir(st).funcoes == st.funcoes,
        buscar(abrir(st).escopos, nome) == buscar(st.escopos, nome),
{
    let e = st.escopos;
    let a = abrir(st).escopos;
    assert(!tem_chave(a[e.len() as int], nome));
    if exists|i: int| 0 <= i < e.len() && tem_chave(#[trigger] e[i], nome) {
        lema_escopo_existe(e, nome);
        let i = escopo_de(e, nome)->Some_0;
        assert forall|j: int| i < j < a.len() implies !tem_chave(#[trigger] a[j], nome) by {
            if j < e.len() {
                assert(a[j] == e[j]);
            }
        }
        assert(a[i] == e[i]);
        lema_escopo_de(a, nome, i);
    } else {
        assert forall|j: int| 0 <= j < a.len() implies !tem_chave(#[trigger] a[j], nome) by {
            if j < e.len() {
                assert(a[j] == e[j]);
            }
        }
    }
}

/// Abrir um escopo, analisar com sucesso um bloco nele e fechá-lo devolve
/// a análise ao estado de antes: as declarações do bloco somem com ele.
pub proof fn lei_bloco_fecha_o_escopo(st: EstadoS, bloco: Seq<InstrM>)
    requires
        analisar_lista(abrir(st), bloco) is Ok,
    ensures
        fechar(analisar_lista(abrir(st), bloco)->Ok_0) == st,
{
    lema_lista_preserva(abrir(st), bloco);
    assert(abrir(st).escopos.drop_last() =~= st.escopos);
}

/// Empilhar e depois desempilhar um escopo na execução devolve o estado de
/// antes.
pub proof fn lei_escopo_da_execucao(st: EstadoR, escopo: Seq<(Seq<char>, ValorModelo)>)
    ensures
        desempilhar(empilhar(st, escopo)) == st,
{
    assert(empilhar(st, escopo).variaveis.drop_last() =~= st.variaveis);
}

// ================================================================
// Operadores
// ================================================================

/// A operação binária que cada atribuição composta faz: `+=` é `+`, `-=` é
/// `-`, `*=` é `*`, `/=` é `/` e `%=` é `%`.
pub open spec fn operacao_da_atribuicao(op: OperadorAtribuicao, a: ExprM, b: ExprM) -> ExprM {
    let (a, b) = (Box::new(a), Box::new(b));
    match op {
        OperadorAtribuicao::Menos => ExprM::Subtracao(a, b),
        OperadorAtribuicao::Multiplica => ExprM::Multiplicacao(a, b),
        OperadorAtribuicao::Divide => ExprM::Divisao(a, b),
        OperadorAtribuicao::Modulo => ExprM::Modulo(a, b),
        _ => ExprM::Soma(a, b),
    }
}

/// `x op= v` dá a `x` o valor de `x op v`: o mesmo resultado, o mesmo erro
/// de divisão por zero e o mesmo estouro. Vale quando os dois valores são
/// decimais, e para `+=` também entre dois textos (concatenação); fora
/// disso os dois dão erros de tipo, com mensagens diferentes.
pub proof fn lei_atribuicao_composta(
    op: OperadorAtribuicao,
    antigo: ValorModelo,
    novo: ValorModelo,
    a: ExprM,
    b: ExprM,
    linha: nat,
)
    requires
        op != OperadorAtribuicao::Igual,
        (antigo is Decimal && novo is Decimal) || (op == OperadorAtribuicao::Mais && antigo is Texto
            && novo is Texto),
    ensures
        aplicar_atribuicao(antigo, novo, op, linha) == combinar(
            operacao_da_atribuicao(op, a, b),
            antigo,
            novo,
            linha,
        ),
{
}

/// Entre decimais, `a > b` é `b < a` e `a >= b` é `b <= a`.
pub proof fn lei_comparacao_invertida(a: DecimalModelo, b: DecimalModelo, linha: nat)
    ensures
        comparar_valores(ValorModelo::Decimal(a), ValorModelo::Decimal(b), linha, Comparacao::Maior)
            == comparar_valores(
            ValorModelo::Decimal(b),
            ValorModelo::Decimal(a),
            linha,
            Comparacao::Menor,
        ),
        comparar_valores(
            ValorModelo::Decimal(a),
            ValorModelo::Decimal(b),
            linha,
            Comparacao::MaiorIgual,
        ) == comparar_valores(
            ValorModelo::Decimal(b),
            ValorModelo::Decimal(a),
            linha,
            Comparacao::MenorIgual,
        ),
{
}

/// Entre dois decimais vale exatamente uma de `a < b`, `a == b` e `a > b`;
/// `a >= b` é `a > b` ou `a == b`, e `a <= b` é `a < b` ou `a == b`.
pub proof fn lei_tricotomia(a: DecimalModelo, b: DecimalModelo)
    ensures
        ({
            let menor = comparacao_decimal(a, b, Comparacao::Menor);
            let igual = valores_iguais(ValorModelo::Decimal(a), ValorModelo::Decimal(b));
            let maior = comparacao_decimal(a, b, Comparacao::Maior);
            &&& menor || igual || maior
            &&& !(menor && igual) && !(menor && maior) && !(igual && maior)
            &&& comparacao_decimal(a, b, Comparacao::MaiorIgual) == (maior || igual)
            &&& comparacao_decimal(a, b, Comparacao::MenorIgual) == (menor || igual)
        }),
{
}

/// `and` e `or` param no primeiro operando: `falso and b` é falso e
/// `verdadeiro or b` é verdadeiro sem avaliar `b` (nem os erros nem as
/// chamadas que `b` faria).
pub proof fn lei_curto_circuito(st: EstadoR, a: ExprM, b: ExprM, linha: nat, c: nat)
    ensures
        avaliar(st, a, linha, c).1 == Ok::<ValorModelo, ErroModelo>(ValorModelo::Booleano(false))
            ==> avaliar(st, ExprM::And(Box::new(a), Box::new(b)), linha, c) == (
            avaliar(st, a, linha, c).0,
            Ok::<ValorModelo, ErroModelo>(ValorModelo::Booleano(false)),
        ),
        avaliar(st, a, linha, c).1 == Ok::<ValorModelo, ErroModelo>(ValorModelo::Booleano(true))
            ==> avaliar(st, ExprM::Or(Box::new(a), Box::new(b)), linha, c) == (
            avaliar(st, a, linha, c).0,
            Ok::<ValorModelo, ErroModelo>(ValorModelo::Booleano(true)),
        ),
{
}

// ================================================================
// Atribuição, igualdade e interpolação
// ================================================================

/// Uma atribuição bem sucedida nunca muda o tipo da variável: `=` exige um
/// valor do mesmo tipo, `+=` soma decimais ou concatena textos e as demais
/// operam sobre decimais.
pub proof fn lei_atribuicao_mantem_o_tipo(
    antigo: ValorModelo,
    novo: ValorModelo,
    op: OperadorAtribuicao,
    linha: nat,
)
    ensures
        aplicar_atribuicao(antigo, novo, op, linha) matches Ok(v) ==> tipo_valor(v) == tipo_valor(
            antigo,
        ),
{
}

proof fn lema_pot10_positiva(e: nat)
    ensures
        pot10(e) > 0,
    decreases e,
{
    if e > 0 {
        lema_pot10_positiva((e - 1) as nat);
    }
}

/// A igualdade `==` da linguagem é uma relação de equivalência: reflexiva,
/// simétrica e transitiva (entre decimais ela compara os valores numéricos,
/// de modo que `1.0 == 1` e `1 == 1.00`).
pub proof fn lei_igualdade_equivalencia(a: ValorModelo, b: ValorModelo, c: ValorModelo)
    ensures
        valores_iguais(a, a),
        valores_iguais(a, b) == valores_iguais(b, a),
        valores_iguais(a, b) && valores_iguais(b, c) ==> valores_iguais(a, c),
{
    match (a, b, c) {
        (ValorModelo::Decimal(x), ValorModelo::Decimal(y), ValorModelo::Decimal(z)) => {
            if valor_igual(x, y) && valor_igual(y, z) {
                let (nx, ny, nz) = (numerador(x), numerador(y), numerador(z));
                let (px, py, pz) = (pot10(x.escala), pot10(y.escala), pot10(z.escala));
                lema_pot10_positiva(y.escala);
                assert(nx * pz == nz * px) by (nonlinear_arith)
                    requires
                        nx * py == ny * px,
                        ny * pz == nz * py,
                        py > 0,
                {
                    assert(nx * pz * py == nx * py * pz);
                    assert(nx * py * pz == ny * px * pz);
                    assert(ny * pz * px == nz * py * px);
                    assert(nz * px * py == nz * py * px);
                    assert((nx * pz - nz * px) * py == 0);
                }
            }
        },
        _ => {},
    }
}

/// Um texto sem `{` não tem marcadores: substituir um marcador nele não o
/// muda.
pub proof fn lema_substituir_sem_chave(s: Seq<char>, padrao: Seq<char>, troca: Seq<char>)
    requires
        padrao.len() > 0,
        padrao[0] == '{',
        !s.contains('{'),
    ensures
        substituir_tudo(s, padrao, troca) == s,
    decreases s.len(),
{
    if padrao.len() <= s.len() {
        if s.take(padrao.len() as int) == padrao {
            assert(s[0] == s.take(padrao.len() as int)[0]);
        }
        assert(!s.drop_first().contains('{')) by {
            if s.drop_first().contains('{') {
                let k = choose|k: int| 0 <= k < s.drop_first().len() && s.drop_first()[k] == '{';
                assert(s[k + 1] == '{');
            }
        }
        lema_substituir_sem_chave(s.drop_first(), padrao, troca);
        assert(seq![s[0]] + s.drop_first() =~= s);
    }
}

pub proof fn lema_interpolar_escopo_sem_chave(escopo: Seq<(Seq<char>, ValorModelo)>, t: Seq<char>)
    requires
        !t.contains('{'),
    ensures
        interpolar_escopo(escopo, t) == t,
    decreases escopo.len(),
{
    if escopo.len() > 0 {
        let m = marcador(escopo[0].0);
        assert(m[0] == '{');
        lema_substituir_sem_chave(t, m, texto_valor(escopo[0].1));
        lema_interpolar_escopo_sem_chave(escopo.drop_first(), t);
    }
}

/// A interpolação só troca marcadores `{nome}`: um texto sem `{` é escrito
/// como está.
pub proof fn lei_interpolacao_sem_marcadores(
    variaveis: Seq<Seq<(Seq<char>, ValorModelo)>>,
    t: Seq<char>,
)
    requires
        !t.contains('{'),
    ensures
        interpolar(variaveis, t) == t,
    decreases variaveis.len(),
{
    if variaveis.len() > 0 {
        lema_interpolar_escopo_sem_chave(variaveis[0], t);
        lei_interpolacao_sem_marcadores(variaveis.drop_first(), t);
    }
}

} // verus!
