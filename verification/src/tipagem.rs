//! O que a análise de tipos garante da execução: num programa sem
//! chamadas de função que a análise aceita, a execução não encontra erro de
//! tipo nem variável inexistente.
use vstd::prelude::*;
use crate::ast::{ExprM, InstrM, OperadorAtribuicao, tam_instr, tam_instrs};
use crate::execucao::{analise_inicial, execucao_inicial};
use crate::semantica::{
    EstadoR, aplicar_atribuicao, executar_programa, avaliar, declarar, empilhar, erro_estouro,
    erro_execucao, executar_bloco, executar_instrucao, executar_sequencia, executar_topo, repetir,
};
use crate::semantico::{
    EstadoS, abrir, analisar_instr, analisar_lista, analisar_programa, analisar_topo,
    declarar_tipo, fechar, lema_analise_preserva, lema_lista_preserva, registrar_funcoes,
    tipo_expr,
};
use crate::tabela::{
    buscar, chaves, escopo_de, inserir, lema_escopo_de, lema_escopo_existe, lema_primeira_existe,
    primeira, tem_chave, valor_de,
};
use crate::valores::{ErroModelo, Tipo, ValorModelo, tipo_valor};

verus! {

/// A expressão não contém chamadas de função.
pub open spec fn sem_chamadas(e: ExprM) -> bool
    decreases e,
{
    match e {
        ExprM::Chamada { .. } => false,
        ExprM::Negativo(a) | ExprM::Not(a) => sem_chamadas(*a),
        ExprM::Soma(a, b) | ExprM::Subtracao(a, b) | ExprM::Multiplicacao(a, b) | ExprM::Divisao(
            a,
            b,
        ) | ExprM::Modulo(a, b) | ExprM::Maior(a, b) | ExprM::Menor(a, b) | ExprM::MaiorIgual(a, b)
        | ExprM::MenorIgual(a, b) | ExprM::Igual(a, b) | ExprM::Diferente(a, b) | ExprM::And(a, b)
        | ExprM::Or(a, b) => sem_chamadas(*a) && sem_chamadas(*b),
        _ => true,
    }
}

/// A instrução não faz chamadas de função fora dos corpos de função (que,
/// sem chamadas, nunca são executados).
pub open spec fn sem_chamadas_instr(i: InstrM) -> bool
    decreases i, 0nat,
{
    match i {
        InstrM::Declarar { valor, .. } | InstrM::Atribuir { valor, .. } | InstrM::Display {
            valor,
            ..
        } | InstrM::Return { valor, .. } => sem_chamadas(valor),
        InstrM::If { condicao, verdadeiro, falso, .. } => sem_chamadas(condicao)
            && sem_chamadas_lista(verdadeiro) && sem_chamadas_lista(falso),
        InstrM::While { condicao, bloco, .. } => sem_chamadas(condicao) && sem_chamadas_lista(
            bloco,
        ),
        InstrM::Funcao { .. } => true,
    }
}

/// Nenhuma instrução da sequência faz chamadas de função.
pub open spec fn sem_chamadas_lista(s: Seq<InstrM>) -> bool
    decreases s, s.len(),
{
    if s.len() == 0 {
        true
    } else {
        sem_chamadas_instr(s[0]) && sem_chamadas_lista(s.drop_first())
    }
}

/// Os escopos da análise descrevem os da execução: os mesmos nomes, na
/// mesma ordem, e cada valor tem o tipo que a análise conhece.
#[verifier::opaque]
pub open spec fn tipos_conferem(
    tipos: Seq<Seq<(Seq<char>, Tipo)>>,
    valores: Seq<Seq<(Seq<char>, ValorModelo)>>,
) -> bool {
    &&& tipos.len() == valores.len()
    &&& forall|i: int| 0 <= i < tipos.len() ==> (#[trigger] tipos[i]).len() == valores[i].len()
    &&& forall|i: int, j: int|
        0 <= i < tipos.len() && 0 <= j < tipos[i].len() ==> (#[trigger] tipos[i][j]).0
            == valores[i][j].0 && tipos[i][j].1 == tipo_valor(valores[i][j].1)
}

/// Os nomes de um escopo da análise são os do escopo correspondente da
/// execução.
proof fn lema_chaves_conferem(
    tipos: Seq<Seq<(Seq<char>, Tipo)>>,
    valores: Seq<Seq<(Seq<char>, ValorModelo)>>,
    i: int,
)
    requires
        tipos_conferem(tipos, valores),
        0 <= i < tipos.len(),
    ensures
        chaves(tipos[i]) == chaves(valores[i]),
{
    reveal(tipos_conferem);
    assert forall|j: int| 0 <= j < tipos[i].len() implies chaves(tipos[i])[j] == chaves(
        valores[i],
    )[j] by {
        assert(tipos[i][j].0 == valores[i][j].0);
    }
    assert(chaves(tipos[i]) =~= chaves(valores[i]));
}

/// Nos escopos que conferem, o valor na posição `j` do escopo `i` tem o
/// tipo que a análise guarda na mesma posição.
proof fn lema_tipo_confere(
    tipos: Seq<Seq<(Seq<char>, Tipo)>>,
    valores: Seq<Seq<(Seq<char>, ValorModelo)>>,
    i: int,
    j: int,
)
    requires
        tipos_conferem(tipos, valores),
        0 <= i < tipos.len(),
        0 <= j < tipos[i].len(),
    ensures
        i < valores.len(),
        j < valores[i].len(),
        tipos[i][j].1 == tipo_valor(valores[i][j].1),
{
    reveal(tipos_conferem);
}

/// Nos escopos que conferem, uma variável que a análise conhece existe na
/// execução, com um valor do tipo conhecido.
pub proof fn lema_buscar_confere(
    tipos: Seq<Seq<(Seq<char>, Tipo)>>,
    valores: Seq<Seq<(Seq<char>, ValorModelo)>>,
    nome: Seq<char>,
)
    requires
        tipos_conferem(tipos, valores),
    ensures
        match buscar(tipos, nome) {
            Some(t) => buscar(valores, nome) matches Some(v) && tipo_valor(v) == t,
            None => buscar(valores, nome) is None,
        },
        escopo_de(valores, nome) == escopo_de(tipos, nome),
        escopo_de(tipos, nome) matches Some(i) ==> 0 <= i < tipos.len() && tem_chave(
            tipos[i],
            nome,
        ) && tem_chave(valores[i], nome),
{
    assert(tipos.len() == valores.len()) by {
        reveal(tipos_conferem);
    }
    if exists|i: int| 0 <= i < tipos.len() && tem_chave(#[trigger] tipos[i], nome) {
        lema_escopo_existe(tipos, nome);
        let i = escopo_de(tipos, nome)->Some_0;
        lema_chaves_conferem(tipos, valores, i);
        assert forall|j: int| i < j < valores.len() implies !tem_chave(
            #[trigger] valores[j],
            nome,
        ) by {
            lema_chaves_conferem(tipos, valores, j);
        }
        lema_escopo_de(valores, nome, i);
        lema_primeira_existe(chaves(tipos[i]), nome);
        let p = primeira(chaves(tipos[i]), nome);
        lema_tipo_confere(tipos, valores, i, p);
    } else {
        assert forall|i: int| 0 <= i < valores.len() implies !tem_chave(
            #[trigger] valores[i],
            nome,
        ) by {
            lema_chaves_conferem(tipos, valores, i);
        }
    }
}

// ================================================================
// Escopos que conferem
// ================================================================

/// Abrir um escopo na análise e empilhar um escopo vazio na execução
/// mantém os escopos conferindo.
pub proof fn lema_conferem_abrir(st: EstadoS, r: EstadoR)
    requires
        tipos_conferem(st.escopos, r.variaveis),
    ensures
        tipos_conferem(abrir(st).escopos, empilhar(r, Seq::empty()).variaveis),
{
    reveal(tipos_conferem);
    let a = abrir(st).escopos;
    let b = empilhar(r, Seq::empty()).variaveis;
    assert forall|i: int| 0 <= i < a.len() implies (#[trigger] a[i]).len() == b[i].len() by {
        if i < st.escopos.len() {
            assert(a[i] == st.escopos[i]);
            assert(b[i] == r.variaveis[i]);
        }
    }
    assert forall|i: int, j: int| 0 <= i < a.len() && 0 <= j < a[i].len() implies (
    #[trigger] a[i][j]).0 == b[i][j].0 && a[i][j].1 == tipo_valor(b[i][j].1) by {
        assert(i < st.escopos.len());
        assert(a[i] == st.escopos[i]);
        assert(b[i] == r.variaveis[i]);
        assert(st.escopos[i][j].0 == r.variaveis[i][j].0);
    }
}

/// Sem o escopo mais interno, os escopos continuam conferindo.
pub proof fn lema_conferem_sem_ultimo(
    tipos: Seq<Seq<(Seq<char>, Tipo)>>,
    valores: Seq<Seq<(Seq<char>, ValorModelo)>>,
)
    requires
        tipos_conferem(tipos, valores),
        tipos.len() >= 1,
    ensures
        tipos_conferem(tipos.drop_last(), valores.drop_last()),
{
    reveal(tipos_conferem);
    let a = tipos.drop_last();
    let b = valores.drop_last();
    assert forall|i: int| 0 <= i < a.len() implies (#[trigger] a[i]).len() == b[i].len() by {
        assert(a[i] == tipos[i]);
        assert(b[i] == valores[i]);
    }
    assert forall|i: int, j: int| 0 <= i < a.len() && 0 <= j < a[i].len() implies (
    #[trigger] a[i][j]).0 == b[i][j].0 && a[i][j].1 == tipo_valor(b[i][j].1) by {
        assert(a[i] == tipos[i]);
        assert(b[i] == valores[i]);
        assert(tipos[i][j].0 == valores[i][j].0);
    }
}

/// Declarar um nome novo no escopo mais interno, com um valor do tipo
/// declarado, mantém os escopos conferindo.
pub proof fn lema_conferem_declarar(
    st: EstadoS,
    r: EstadoR,
    nome: Seq<char>,
    tipo: Tipo,
    v: ValorModelo,
)
    requires
        tipos_conferem(st.escopos, r.variaveis),
        st.escopos.len() >= 1,
        !tem_chave(st.escopos.last(), nome),
        tipo_valor(v) == tipo,
    ensures
        tipos_conferem(declarar_tipo(st, nome, tipo).escopos, declarar(r, nome, v).variaveis),
{
    let n = st.escopos.len() - 1;
    lema_chaves_conferem(st.escopos, r.variaveis, n);
    reveal(tipos_conferem);
    let a = declarar_tipo(st, nome, tipo).escopos;
    let b = declarar(r, nome, v).variaveis;
    assert(a[n] == st.escopos[n].push((nome, tipo)));
    assert(b[n] == r.variaveis[n].push((nome, v)));
    assert forall|i: int| 0 <= i < a.len() implies (#[trigger] a[i]).len() == b[i].len() by {
        if i != n {
            assert(a[i] == st.escopos[i]);
            assert(b[i] == r.variaveis[i]);
        }
    }
    assert forall|i: int, j: int| 0 <= i < a.len() && 0 <= j < a[i].len() implies (
    #[trigger] a[i][j]).0 == b[i][j].0 && a[i][j].1 == tipo_valor(b[i][j].1) by {
        if i != n {
            assert(a[i] == st.escopos[i]);
            assert(b[i] == r.variaveis[i]);
            assert(st.escopos[i][j].0 == r.variaveis[i][j].0);
        } else if j < st.escopos[n].len() {
            assert(a[n][j] == st.escopos[n][j]);
            assert(b[n][j] == r.variaveis[n][j]);
            assert(st.escopos[n][j].0 == r.variaveis[n][j].0);
        }
    }
}

/// Trocar o valor de uma variável existente por outro do mesmo tipo mantém
/// os escopos conferindo.
pub proof fn lema_conferem_atribuir(
    tipos: Seq<Seq<(Seq<char>, Tipo)>>,
    valores: Seq<Seq<(Seq<char>, ValorModelo)>>,
    k: int,
    nome: Seq<char>,
    v: ValorModelo,
)
    requires
        tipos_conferem(tipos, valores),
        0 <= k < valores.len(),
        valor_de(valores[k], nome) matches Some(antigo) && tipo_valor(antigo) == tipo_valor(v),
    ensures
        tipos_conferem(tipos, valores.update(k, inserir(valores[k], nome, v))),
{
    assert(tipos.len() == valores.len()) by {
        reveal(tipos_conferem);
    }
    lema_chaves_conferem(tipos, valores, k);
    lema_primeira_existe(chaves(valores[k]), nome);
    let p = primeira(chaves(valores[k]), nome);
    reveal(tipos_conferem);
    let b = valores.update(k, inserir(valores[k], nome, v));
    assert(b[k] == valores[k].update(p, (nome, v)));
    assert forall|i: int| 0 <= i < tipos.len() implies (#[trigger] tipos[i]).len() == b[i].len() by {
        if i != k {
            assert(b[i] == valores[i]);
        }
    }
    assert forall|i: int, j: int| 0 <= i < tipos.len() && 0 <= j < tipos[i].len() implies (
    #[trigger] tipos[i][j]).0 == b[i][j].0 && tipos[i][j].1 == tipo_valor(b[i][j].1) by {
        if i != k {
            assert(b[i] == valores[i]);
        } else if j != p {
            assert(b[k][j] == valores[k][j]);
        } else {
            assert(chaves(valores[k])[p] == nome);
            assert(tipos[k][p].0 == valores[k][p].0);
        }
    }
}

/// Os erros que a análise de tipos não previne numa expressão: estouro,
/// divisão por zero e módulo por zero.
pub open spec fn erro_aritmetico(x: ErroModelo, linha: nat) -> bool {
    x == erro_estouro(linha) || x == erro_execucao(linha, "Divisão por zero."@) || x
        == erro_execucao(linha, "Módulo por zero."@)
}

/// Toda variável que a análise encontra também é encontrada na execução,
/// com um valor do tipo que a análise conhece.
pub open spec fn buscas_conferem(
    tipos: Seq<Seq<(Seq<char>, Tipo)>>,
    valores: Seq<Seq<(Seq<char>, ValorModelo)>>,
) -> bool {
    forall|nome: Seq<char>|
        #![trigger buscar(tipos, nome)]
        buscar(tipos, nome) is Some ==> (buscar(valores, nome) matches Some(v) && tipo_valor(v)
            == buscar(tipos, nome)->Some_0)
}

/// Escopos que conferem entrada a entrada também conferem nas buscas.
pub proof fn lema_conferem_buscas(
    tipos: Seq<Seq<(Seq<char>, Tipo)>>,
    valores: Seq<Seq<(Seq<char>, ValorModelo)>>,
)
    requires
        tipos_conferem(tipos, valores),
    ensures
        buscas_conferem(tipos, valores),
{
    assert forall|nome: Seq<char>| #[trigger] buscar(tipos, nome) is Some implies (buscar(
        valores,
        nome,
    ) matches Some(v) && tipo_valor(v) == buscar(tipos, nome)->Some_0) by {
        lema_buscar_confere(tipos, valores, nome);
    }
}

/// O que a análise de tipos garante de uma expressão sem chamadas: se a
/// análise lhe dá o tipo `t`, num estado em que cada variável que a análise
/// conhece existe na execução com um valor do tipo conhecido, avaliá-la
/// não muda o estado e dá um valor do tipo `t`, ou um erro de execução
/// (divisão ou módulo por zero, ou estouro); nunca um erro de tipo nem de
/// variável inexistente.
pub proof fn lei_tipos_da_expressao(st: EstadoS, r: EstadoR, e: ExprM, linha: nat, c: nat)
    requires
        sem_chamadas(e),
        buscas_conferem(st.escopos, r.variaveis),
        tipo_expr(st, e) is Ok,
    ensures
        avaliar(r, e, linha, c).0 == r,
        match avaliar(r, e, linha, c).1 {
            Ok(v) => tipo_valor(v) == tipo_expr(st, e)->Ok_0,
            Err(x) => erro_aritmetico(x, linha),
        },
    decreases e,
{
    match e {
        ExprM::Variavel(nome) => {
            assert(buscar(st.escopos, nome) is Some);
        },
        ExprM::Negativo(a) | ExprM::Not(a) => {
            lei_tipos_da_expressao(st, r, *a, linha, c);
        },
        ExprM::Soma(a, b) | ExprM::Subtracao(a, b) | ExprM::Multiplicacao(a, b) | ExprM::Divisao(
            a,
            b,
        ) | ExprM::Modulo(a, b) | ExprM::Maior(a, b) | ExprM::Menor(a, b) | ExprM::MaiorIgual(a, b)
        | ExprM::MenorIgual(a, b) | ExprM::Igual(a, b) | ExprM::Diferente(a, b) | ExprM::And(a, b)
        | ExprM::Or(a, b) => {
            lei_tipos_da_expressao(st, r, *a, linha, c);
            lei_tipos_da_expressao(st, r, *b, linha, c);
        },
        _ => {},
    }
}

// ================================================================
// Instruções e programas
// ================================================================

/// Os escopos que conferem têm o mesmo tamanho.
proof fn lema_conferem_tamanho(
    tipos: Seq<Seq<(Seq<char>, Tipo)>>,
    valores: Seq<Seq<(Seq<char>, ValorModelo)>>,
)
    requires
        tipos_conferem(tipos, valores),
    ensures
        tipos.len() == valores.len(),
{
    reveal(tipos_conferem);
}

/// As falhas que a análise não previne num programa sem chamadas: estouro,
/// divisão ou módulo por zero e o esgotamento do combustível.
pub open spec fn falha_prevista(x: ErroModelo) -> bool {
    match x {
        ErroModelo::Runtime { mensagem, .. } => mensagem == "Resultado decimal fora do intervalo."@
            || mensagem == "Divisão por zero."@ || mensagem == "Módulo por zero."@ || mensagem
            == "Limite de execução atingido."@,
        _ => false,
    }
}

/// O que a execução de uma instrução aceita pela análise garante: só falha
/// de um modo previsto e, sem falha, deixa os escopos conferindo com os que
/// a análise dá depois dela.
pub open spec fn execucao_prevista(st: EstadoS, r: EstadoR, i: InstrM, c: nat) -> bool {
    let (r1, res) = executar_instrucao(r, i, c);
    match res {
        Err(x) => falha_prevista(x),
        Ok(_) => tipos_conferem(analisar_instr(st, i)->Ok_0.escopos, r1.variaveis),
    }
}

/// Uma declaração aceita pela análise.
proof fn lema_execucao_declarar(st: EstadoS, r: EstadoR, i: InstrM, c: nat)
    requires
        i is Declarar,
        st.escopos.len() >= 1,
        tipos_conferem(st.escopos, r.variaveis),
        analisar_instr(st, i) is Ok,
        sem_chamadas_instr(i),
    ensures
        execucao_prevista(st, r, i, c),
{
    match i {
        InstrM::Declarar { tipo, nome, valor, .. } => {
            lema_conferem_buscas(st.escopos, r.variaveis);
            lei_tipos_da_expressao(st, r, valor, 0, c);
            match avaliar(r, valor, 0, c).1 {
                Ok(v) => {
                    lema_conferem_declarar(st, r, nome, tipo, v);
                },
                Err(_) => {},
            }
        },
        _ => {},
    }
}

/// Uma atribuição que a análise aceita (`=` entre valores do mesmo tipo,
/// as compostas entre decimais) dá um valor do tipo da variável, ou falha
/// de um modo previsto.
proof fn lema_atribuicao_tipada(
    antigo: ValorModelo,
    novo: ValorModelo,
    op: OperadorAtribuicao,
    linha: nat,
)
    requires
        op == OperadorAtribuicao::Igual ==> tipo_valor(antigo) == tipo_valor(novo),
        op != OperadorAtribuicao::Igual ==> antigo is Decimal && novo is Decimal,
    ensures
        match aplicar_atribuicao(antigo, novo, op, linha) {
            Ok(v) => tipo_valor(v) == tipo_valor(antigo),
            Err(x) => falha_prevista(x),
        },
{
}

/// O que a análise aceitar uma atribuição diz dos tipos: a variável existe
/// com um tipo, a expressão tem um tipo, e eles são iguais (`=`) ou são
/// ambos `decimal` (atribuições compostas).
proof fn lema_analise_atribuir(
    st: EstadoS,
    nome: Seq<char>,
    operador: OperadorAtribuicao,
    valor: ExprM,
    linha: nat,
)
    requires
        analisar_instr(st, InstrM::Atribuir { nome, operador, valor, linha }) is Ok,
    ensures
        buscar(st.escopos, nome) is Some,
        tipo_expr(st, valor) is Ok,
        operador == OperadorAtribuicao::Igual ==> buscar(st.escopos, nome)->Some_0 == tipo_expr(
            st,
            valor,
        )->Ok_0,
        operador != OperadorAtribuicao::Igual ==> buscar(st.escopos, nome)->Some_0
            == Tipo::Decimal && tipo_expr(st, valor)->Ok_0 == Tipo::Decimal,
        analisar_instr(st, InstrM::Atribuir { nome, operador, valor, linha }) == Ok::<
            EstadoS,
            ErroModelo,
        >(st),
{
}

/// Uma atribuição aceita pela análise.
proof fn lema_execucao_atribuir(
    st: EstadoS,
    r: EstadoR,
    nome: Seq<char>,
    operador: OperadorAtribuicao,
    valor: ExprM,
    linha: nat,
    c: nat,
)
    requires
        st.escopos.len() >= 1,
        tipos_conferem(st.escopos, r.variaveis),
        analisar_instr(st, InstrM::Atribuir { nome, operador, valor, linha }) is Ok,
        sem_chamadas(valor),
    ensures
        execucao_prevista(st, r, InstrM::Atribuir { nome, operador, valor, linha }, c),
{
    lema_analise_atribuir(st, nome, operador, valor, linha);
    lema_conferem_buscas(st.escopos, r.variaveis);
    lei_tipos_da_expressao(st, r, valor, linha, c);
    lema_buscar_confere(st.escopos, r.variaveis, nome);
    lema_conferem_tamanho(st.escopos, r.variaveis);
    let k = escopo_de(r.variaveis, nome)->Some_0;
    assert(0 <= k < r.variaveis.len());
    let antigo = valor_de(r.variaveis[k], nome)->Some_0;
    assert(buscar(r.variaveis, nome) == Some(antigo));
    match avaliar(r, valor, linha, c).1 {
        Ok(novo) => {
            lema_atribuicao_tipada(antigo, novo, operador, linha);
            match aplicar_atribuicao(antigo, novo, operador, linha) {
                Ok(v) => {
                    lema_conferem_atribuir(st.escopos, r.variaveis, k, nome, v);
                },
                Err(_) => {},
            }
        },
        Err(_) => {},
    }
}

/// Um `if` aceito pela análise.
proof fn lema_execucao_se(st: EstadoS, r: EstadoR, i: InstrM, c: nat)
    requires
        i is If,
        st.escopos.len() >= 1,
        tipos_conferem(st.escopos, r.variaveis),
        analisar_instr(st, i) is Ok,
        sem_chamadas_instr(i),
    ensures
        execucao_prevista(st, r, i, c),
    decreases c, tam_instr(i), 0nat,
{
    match i {
        InstrM::If { condicao, verdadeiro, falso, linha } => {
            lema_conferem_buscas(st.escopos, r.variaveis);
            lei_tipos_da_expressao(st, r, condicao, linha, c);
            lema_analise_preserva(st, i);
            lema_conferem_abrir(st, r);
            lema_lista_preserva(abrir(st), verdadeiro);
            let s1 = analisar_lista(abrir(st), verdadeiro)->Ok_0;
            assert(abrir(st).escopos.drop_last() =~= st.escopos);
            assert(fechar(s1).escopos =~= st.escopos);
            assert(abrir(fechar(s1)) == abrir(st));
            match avaliar(r, condicao, linha, c).1 {
                Ok(ValorModelo::Booleano(b)) => {
                    if b {
                        lema_execucao_sequencia(abrir(st), empilhar(r, Seq::empty()), verdadeiro, c);
                    } else {
                        lema_execucao_sequencia(abrir(st), empilhar(r, Seq::empty()), falso, c);
                    }
                },
                _ => {},
            }
        },
        _ => {},
    }
}

/// Uma instrução aceita pela análise, executada num estado que confere com
/// o da análise, só falha de um modo previsto e deixa o estado conferindo
/// com o que a análise dá depois dela.
pub proof fn lema_execucao_instr(st: EstadoS, r: EstadoR, i: InstrM, c: nat)
    requires
        st.escopos.len() >= 1,
        tipos_conferem(st.escopos, r.variaveis),
        analisar_instr(st, i) is Ok,
        sem_chamadas_instr(i),
    ensures
        execucao_prevista(st, r, i, c),
    decreases c, tam_instr(i), 1nat,
{
    match i {
        InstrM::Declarar { .. } => lema_execucao_declarar(st, r, i, c),
        InstrM::Atribuir { nome, operador, valor, linha } => {
            lema_execucao_atribuir(st, r, nome, operador, valor, linha, c);
        },
        InstrM::Display { valor, linha } | InstrM::Return { valor, linha } => {
            lema_conferem_buscas(st.escopos, r.variaveis);
            lei_tipos_da_expressao(st, r, valor, linha, c);
        },
        InstrM::If { .. } => lema_execucao_se(st, r, i, c),
        InstrM::While { condicao, bloco, linha } => {
            lema_analise_preserva(st, i);
            lema_execucao_repetir(st, r, condicao, bloco, linha, c);
        },
        InstrM::Funcao { .. } => {},
    }
}

/// Uma sequência aceita pela análise só falha de um modo previsto e, fora
/// do escopo mais interno, deixa os escopos conferindo.
pub proof fn lema_execucao_sequencia(st: EstadoS, r: EstadoR, s: Seq<InstrM>, c: nat)
    requires
        st.escopos.len() >= 1,
        tipos_conferem(st.escopos, r.variaveis),
        analisar_lista(st, s) is Ok,
        sem_chamadas_lista(s),
    ensures
        ({
            let (r1, res) = executar_sequencia(r, s, c);
            match res {
                Err(x) => falha_prevista(x),
                Ok(_) => r1.variaveis.len() == r.variaveis.len() && tipos_conferem(
                    st.escopos.drop_last(),
                    r1.variaveis.drop_last(),
                ),
            }
        }),
    decreases c, tam_instrs(s), 2nat,
{
    lema_conferem_tamanho(st.escopos, r.variaveis);
    if s.len() > 0 {
        lema_execucao_instr(st, r, s[0], c);
        lema_analise_preserva(st, s[0]);
        let s1 = analisar_instr(st, s[0])->Ok_0;
        let (r1, res) = executar_instrucao(r, s[0], c);
        match res {
            Ok(None) => {
                lema_execucao_sequencia(s1, r1, s.drop_first(), c);
                lema_conferem_tamanho(s1.escopos, r1.variaveis);
            },
            Ok(Some(_)) => {
                lema_conferem_tamanho(s1.escopos, r1.variaveis);
                lema_conferem_sem_ultimo(s1.escopos, r1.variaveis);
            },
            Err(_) => {},
        }
    } else {
        lema_conferem_sem_ultimo(st.escopos, r.variaveis);
    }
}

/// As voltas de um `while` aceito pela análise só falham de um modo
/// previsto e deixam os escopos conferindo.
pub proof fn lema_execucao_repetir(
    st: EstadoS,
    r: EstadoR,
    condicao: ExprM,
    bloco: Seq<InstrM>,
    linha: nat,
    c: nat,
)
    requires
        st.escopos.len() >= 1,
        tipos_conferem(st.escopos, r.variaveis),
        tipo_expr(st, condicao) == Ok::<Tipo, ErroModelo>(Tipo::Boolean),
        analisar_lista(abrir(st), bloco) is Ok,
        sem_chamadas(condicao),
        sem_chamadas_lista(bloco),
    ensures
        ({
            let (r1, res) = repetir(r, condicao, bloco, linha, c);
            match res {
                Err(x) => falha_prevista(x),
                Ok(_) => tipos_conferem(st.escopos, r1.variaveis),
            }
        }),
    decreases c, tam_instrs(bloco), 2nat,
{
    if c > 0 {
        let c1 = (c - 1) as nat;
        lema_conferem_buscas(st.escopos, r.variaveis);
        lei_tipos_da_expressao(st, r, condicao, linha, c1);
        match avaliar(r, condicao, linha, c1).1 {
            Ok(ValorModelo::Booleano(true)) => {
                lema_conferem_abrir(st, r);
                lema_execucao_sequencia(abrir(st), empilhar(r, Seq::empty()), bloco, c1);
                assert(abrir(st).escopos.drop_last() =~= st.escopos);
                let (s2, r2) = executar_bloco(r, bloco, c1);
                if r2 is Ok {
                    lema_execucao_repetir(st, s2, condicao, bloco, linha, c1);
                }
            },
            _ => {},
        }
    }
}

/// As instruções de fora das funções, aceitas pela análise, só falham de
/// um modo previsto.
pub proof fn lema_execucao_topo(st: EstadoS, r: EstadoR, programa: Seq<InstrM>, c: nat)
    requires
        st.escopos.len() >= 1,
        tipos_conferem(st.escopos, r.variaveis),
        analisar_topo(st, programa) is Ok,
        sem_chamadas_lista(programa),
    ensures
        executar_topo(r, programa, c).1 matches Err(x) ==> falha_prevista(x),
    decreases programa.len(),
{
    if programa.len() > 0 {
        if programa[0] is Funcao {
            lema_execucao_topo(st, r, programa.drop_first(), c);
        } else {
            lema_execucao_instr(st, r, programa[0], c);
            lema_analise_preserva(st, programa[0]);
            let s1 = analisar_instr(st, programa[0])->Ok_0;
            let (r1, res) = executar_instrucao(r, programa[0], c);
            if res is Ok {
                lema_execucao_topo(s1, r1, programa.drop_first(), c);
            }
        }
    }
}

/// Um programa sem chamadas de função que a análise aceita não falha, ao
/// ser executado, por erro de tipo nem por variável inexistente: termina
/// bem, ou pára por estouro, por divisão ou módulo por zero, ou por esgotar
/// o combustível.
pub proof fn lei_programa_bem_tipado(programa: Seq<InstrM>)
    requires
        sem_chamadas_lista(programa),
        analisar_programa(analise_inicial(), programa) is Ok,
    ensures
        executar_programa(execucao_inicial(), programa).1 matches Err(x) ==> falha_prevista(x),
{
    let f = registrar_funcoes(analise_inicial().funcoes, programa)->Ok_0;
    let st = EstadoS { funcoes: f, ..analise_inicial() };
    let r = EstadoR {
        funcoes: crate::semantica::registrar(execucao_inicial().funcoes, programa),
        ..execucao_inicial()
    };
    assert(tipos_conferem(st.escopos, r.variaveis)) by {
        reveal(tipos_conferem);
    }
    lema_execucao_topo(st, r, programa, crate::semantica::combustivel_inicial());
}

} // verus!
