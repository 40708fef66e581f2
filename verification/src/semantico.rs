//! A análise semântica: confere declarações, nomes, tipos e chamadas antes
//! da execução.
use vstd::prelude::*;
use crate::ast::{
    ExprM, Expressao, InstrM, Instrucao, OperadorAtribuicao, lema_modelos_expr, lema_modelos_instr,
    lema_tam_exprs, lema_tam_instrs, modelos_expr, modelos_instr, tam_expr, tam_exprs, tam_instr,
    tam_instrs,
};
use crate::tabela::{
    buscar, chaves, chaves_exec, inserir, lema_escopo_de, procurar, tem_chave, valor_de,
};
use crate::texto::{anexar, anexar_literal, copiar, digitos, numero_texto, texto_de};
use crate::valores::{ErroModelo, NeoErro, Tipo, nome_tipo};

verus! {

/// O que a análise sabe de uma variável: o seu tipo.
#[derive(Clone, Copy, Debug)]
pub struct Simbolo {
    pub tipo: Tipo,
}

/// O modelo do estado da análise: os escopos, cada um com o tipo de cada
/// variável declarada nele, e o número de parâmetros de cada função.
pub struct EstadoS {
    pub escopos: Seq<Seq<(Seq<char>, Tipo)>>,
    pub funcoes: Seq<(Seq<char>, nat)>,
}

/// Um erro semântico.
pub open spec fn erro_semantico(linha: nat, mensagem: Seq<char>) -> ErroModelo {
    ErroModelo::Semantico { linha, mensagem }
}

/// Um erro de tipo.
pub open spec fn erro_de_tipo(linha: nat, esperado: Seq<char>, recebido: Seq<char>) -> ErroModelo {
    ErroModelo::Tipo { linha, esperado, recebido }
}

/// `"{a}{sep}{b}"` com os nomes de dois tipos.
pub open spec fn dois_tipos(a: Tipo, b: Tipo, sep: Seq<char>) -> Seq<char> {
    nome_tipo(a) + sep + nome_tipo(b)
}

/// O tipo de uma expressão, ou o primeiro erro encontrado nela (da esquerda
/// para a direita). Erros de expressão não sabem a linha: levam linha 0.
pub open spec fn tipo_expr(st: EstadoS, e: ExprM) -> Result<Tipo, ErroModelo>
    decreases tam_expr(e), 0nat,
{
    match e {
        ExprM::Decimal(_) => Ok(Tipo::Decimal),
        ExprM::Texto(_) => Ok(Tipo::String),
        ExprM::Booleano(_) => Ok(Tipo::Boolean),
        ExprM::Variavel(nome) => match buscar(st.escopos, nome) {
            Some(t) => Ok(t),
            None => Err(erro_semantico(0, "Variável '"@ + nome + "' não existe."@)),
        },
        ExprM::Negativo(a) => match tipo_expr(st, *a) {
            Err(x) => Err(x),
            Ok(t) => if t != Tipo::Decimal {
                Err(erro_de_tipo(0, "decimal"@, nome_tipo(t)))
            } else {
                Ok(Tipo::Decimal)
            },
        },
        ExprM::Not(a) => match tipo_expr(st, *a) {
            Err(x) => Err(x),
            Ok(t) => if t != Tipo::Boolean {
                Err(erro_de_tipo(0, "boolean"@, nome_tipo(t)))
            } else {
                Ok(Tipo::Boolean)
            },
        },
        ExprM::Chamada { nome, argumentos } => match valor_de(st.funcoes, nome) {
            None => Err(erro_semantico(0, "Função '"@ + nome + "' não existe."@)),
            Some(n) => if argumentos.len() != n {
                Err(
                    erro_semantico(
                        0,
                        "Função '"@ + nome + "' espera "@ + digitos(n) + " argumento(s), mas recebeu "@
                            + digitos(argumentos.len()) + "."@,
                    ),
                )
            } else {
                match tipos_argumentos(st, argumentos) {
                    Err(x) => Err(x),
                    Ok(()) => Ok(Tipo::Vazio),
                }
            },
        },
        ExprM::Soma(a, b) | ExprM::Subtracao(a, b) | ExprM::Multiplicacao(a, b) | ExprM::Divisao(
            a,
            b,
        ) | ExprM::Modulo(a, b) | ExprM::Maior(a, b) | ExprM::Menor(a, b) | ExprM::MaiorIgual(a, b)
        | ExprM::MenorIgual(a, b) | ExprM::Igual(a, b) | ExprM::Diferente(a, b) | ExprM::And(a, b)
        | ExprM::Or(a, b) => match tipo_expr(st, *a) {
            Err(x) => Err(x),
            Ok(ta) => match tipo_expr(st, *b) {
                Err(x) => Err(x),
                Ok(tb) => tipo_binario(e, ta, tb),
            },
        },
    }
}

/// O tipo de uma operação binária dados os tipos dos operandos.
pub open spec fn tipo_binario(e: ExprM, a: Tipo, b: Tipo) -> Result<Tipo, ErroModelo> {
    match e {
        ExprM::Soma(_, _) => if (a == Tipo::Decimal && b == Tipo::Decimal) || (a == Tipo::String
            && b == Tipo::String) {
            Ok(a)
        } else {
            Err(
                erro_de_tipo(
                    0,
                    "decimal + decimal ou string + string"@,
                    dois_tipos(a, b, " + "@),
                ),
            )
        },
        ExprM::Subtracao(_, _) | ExprM::Multiplicacao(_, _) | ExprM::Divisao(_, _) | ExprM::Modulo(
            _,
            _,
        ) => if a != Tipo::Decimal || b != Tipo::Decimal {
            Err(erro_de_tipo(0, "decimal"@, dois_tipos(a, b, " e "@)))
        } else {
            Ok(Tipo::Decimal)
        },
        ExprM::Maior(_, _) | ExprM::Menor(_, _) | ExprM::MaiorIgual(_, _) | ExprM::MenorIgual(
            _,
            _,
        ) => if a != Tipo::Decimal || b != Tipo::Decimal {
            Err(erro_de_tipo(0, "dois valores decimal"@, dois_tipos(a, b, " e "@)))
        } else {
            Ok(Tipo::Boolean)
        },
        ExprM::Igual(_, _) | ExprM::Diferente(_, _) => if a != b {
            Err(erro_de_tipo(0, nome_tipo(a), nome_tipo(b)))
        } else {
            Ok(Tipo::Boolean)
        },
        _ => if a != Tipo::Boolean || b != Tipo::Boolean {
            Err(erro_de_tipo(0, "boolean"@, dois_tipos(a, b, " e "@)))
        } else {
            Ok(Tipo::Boolean)
        },
    }
}

/// Confere os argumentos de uma chamada, da esquerda para a direita.
pub open spec fn tipos_argumentos(st: EstadoS, args: Seq<ExprM>) -> Result<(), ErroModelo>
    decreases tam_exprs(args), 0nat,
{
    if args.len() == 0 {
        Ok(())
    } else {
        match tipo_expr(st, args[0]) {
            Err(x) => Err(x),
            Ok(_) => tipos_argumentos(st, args.drop_first()),
        }
    }
}

/// Um erro de tipo de uma expressão passa a levar a linha da instrução
/// `display`; os demais erros não mudam.
pub open spec fn com_linha(e: ErroModelo, linha: nat) -> ErroModelo {
    match e {
        ErroModelo::Tipo { esperado, recebido, .. } => ErroModelo::Tipo { linha, esperado, recebido },
        outro => outro,
    }
}

/// Abre um escopo.
pub open spec fn abrir(st: EstadoS) -> EstadoS {
    EstadoS { escopos: st.escopos.push(Seq::empty()), ..st }
}

/// Fecha o escopo mais interno (sem efeito se não houver escopo).
pub open spec fn fechar(st: EstadoS) -> EstadoS {
    if st.escopos.len() == 0 {
        st
    } else {
        EstadoS { escopos: st.escopos.drop_last(), ..st }
    }
}

/// O escopo mais interno (vazio se não houver escopo).
pub open spec fn escopo_atual(st: EstadoS) -> Seq<(Seq<char>, Tipo)> {
    if st.escopos.len() == 0 {
        Seq::empty()
    } else {
        st.escopos.last()
    }
}

/// Declara `nome` com o tipo `t` no escopo mais interno.
pub open spec fn declarar_tipo(st: EstadoS, nome: Seq<char>, t: Tipo) -> EstadoS {
    if st.escopos.len() == 0 {
        st
    } else {
        EstadoS {
            escopos: st.escopos.update(
                st.escopos.len() - 1,
                inserir(st.escopos.last(), nome, t),
            ),
            ..st
        }
    }
}

/// A análise de uma instrução: o estado depois dela ou o primeiro erro.
pub open spec fn analisar_instr(st: EstadoS, i: InstrM) -> Result<EstadoS, ErroModelo>
    decreases tam_instr(i), 0nat,
{
    match i {
        InstrM::Declarar { tipo, nome, valor, linha } => if tem_chave(escopo_atual(st), nome) {
            Err(
                erro_semantico(
                    linha,
                    "A variável '"@ + nome + "' já foi declarada neste escopo."@,
                ),
            )
        } else {
            match tipo_expr(st, valor) {
                Err(x) => Err(x),
                Ok(t) => if t != tipo {
                    Err(erro_de_tipo(linha, nome_tipo(tipo), nome_tipo(t)))
                } else {
                    Ok(declarar_tipo(st, nome, tipo))
                },
            }
        },
        InstrM::Atribuir { nome, operador, valor, linha } => match buscar(st.escopos, nome) {
            None => Err(erro_semantico(linha, "Variável '"@ + nome + "' não existe."@)),
            Some(tv) => match tipo_expr(st, valor) {
                Err(x) => Err(x),
                Ok(t) => if operador == OperadorAtribuicao::Igual {
                    if tv != t {
                        Err(erro_de_tipo(linha, nome_tipo(tv), nome_tipo(t)))
                    } else {
                        Ok(st)
                    }
                } else if tv != Tipo::Decimal || t != Tipo::Decimal {
                    Err(erro_de_tipo(linha, "decimal"@, dois_tipos(tv, t, " e "@)))
                } else {
                    Ok(st)
                },
            },
        },
        InstrM::Display { valor, linha } => match tipo_expr(st, valor) {
            Err(x) => Err(com_linha(x, linha)),
            Ok(_) => Ok(st),
        },
        InstrM::If { condicao, verdadeiro, falso, linha } => match tipo_expr(st, condicao) {
            Err(x) => Err(x),
            Ok(t) => if t != Tipo::Boolean {
                Err(erro_de_tipo(linha, "boolean"@, nome_tipo(t)))
            } else {
                match analisar_lista(abrir(st), verdadeiro) {
                    Err(x) => Err(x),
                    Ok(s1) => match analisar_lista(abrir(fechar(s1)), falso) {
                        Err(x) => Err(x),
                        Ok(s2) => Ok(fechar(s2)),
                    },
                }
            },
        },
        InstrM::While { condicao, bloco, linha } => match tipo_expr(st, condicao) {
            Err(x) => Err(x),
            Ok(t) => if t != Tipo::Boolean {
                Err(erro_de_tipo(linha, "boolean"@, nome_tipo(t)))
            } else {
                match analisar_lista(abrir(st), bloco) {
                    Err(x) => Err(x),
                    Ok(s1) => Ok(fechar(s1)),
                }
            },
        },
        InstrM::Funcao { .. } => Ok(st),
        InstrM::Return { valor, .. } => match tipo_expr(st, valor) {
            Err(x) => Err(x),
            Ok(_) => Ok(st),
        },
    }
}

/// A análise de uma sequência de instruções, em ordem.
pub open spec fn analisar_lista(st: EstadoS, s: Seq<InstrM>) -> Result<EstadoS, ErroModelo>
    decreases tam_instrs(s), 0nat,
{
    if s.len() == 0 {
        Ok(st)
    } else {
        match analisar_instr(st, s[0]) {
            Err(x) => Err(x),
            Ok(s1) => analisar_lista(s1, s.drop_first()),
        }
    }
}

/// Registra as funções do programa, em ordem; um nome repetido é um erro.
pub open spec fn registrar_funcoes(funcoes: Seq<(Seq<char>, nat)>, programa: Seq<InstrM>) -> Result<
    Seq<(Seq<char>, nat)>,
    ErroModelo,
>
    decreases programa.len(),
{
    if programa.len() == 0 {
        Ok(funcoes)
    } else {
        match programa[0] {
            InstrM::Funcao { nome, parametros, linha, .. } => if tem_chave(funcoes, nome) {
                Err(erro_semantico(linha, "A função '"@ + nome + "' já foi declarada."@))
            } else {
                registrar_funcoes(
                    inserir(funcoes, nome, parametros.len()),
                    programa.drop_first(),
                )
            },
            _ => registrar_funcoes(funcoes, programa.drop_first()),
        }
    }
}

/// Analisa as instruções do programa que não são declarações de função.
pub open spec fn analisar_topo(st: EstadoS, programa: Seq<InstrM>) -> Result<EstadoS, ErroModelo>
    decreases programa.len(),
{
    if programa.len() == 0 {
        Ok(st)
    } else if programa[0] is Funcao {
        analisar_topo(st, programa.drop_first())
    } else {
        match analisar_instr(st, programa[0]) {
            Err(x) => Err(x),
            Ok(s1) => analisar_topo(s1, programa.drop_first()),
        }
    }
}

/// A análise de um programa: registra as funções e analisa o resto.
pub open spec fn analisar_programa(st: EstadoS, programa: Seq<InstrM>) -> Result<
    EstadoS,
    ErroModelo,
> {
    match registrar_funcoes(st.funcoes, programa) {
        Err(x) => Err(x),
        Ok(f) => analisar_topo(EstadoS { funcoes: f, ..st }, programa),
    }
}

/// A análise de uma instrução não muda as funções, nem o número de escopos,
/// nem os escopos de fora do mais interno; a de um `if` ou `while` não muda
/// os escopos.
pub proof fn lema_analise_preserva(st: EstadoS, i: InstrM)
    requires
        analisar_instr(st, i) is Ok,
        st.escopos.len() >= 1,
    ensures
        analisar_instr(st, i)->Ok_0.funcoes == st.funcoes,
        analisar_instr(st, i)->Ok_0.escopos.len() == st.escopos.len(),
        analisar_instr(st, i)->Ok_0.escopos.drop_last() == st.escopos.drop_last(),
        (i is If || i is While) ==> analisar_instr(st, i)->Ok_0.escopos == st.escopos,
    decreases tam_instr(i), 0nat,
{
    match i {
        InstrM::Declarar { nome, tipo, .. } => {
            let s1 = analisar_instr(st, i)->Ok_0;
            assert(s1 == declarar_tipo(st, nome, tipo));
            assert(s1.escopos.drop_last() =~= st.escopos.drop_last());
        },
        InstrM::If { verdadeiro, falso, .. } => {
            lema_lista_preserva(abrir(st), verdadeiro);
            let s1 = analisar_lista(abrir(st), verdadeiro)->Ok_0;
            assert(abrir(st).escopos.drop_last() =~= st.escopos);
            assert(abrir(fechar(s1)).escopos.len() >= 1);
            lema_lista_preserva(abrir(fechar(s1)), falso);
            let s2 = analisar_lista(abrir(fechar(s1)), falso)->Ok_0;
            assert(abrir(fechar(s1)).escopos.drop_last() =~= fechar(s1).escopos);
        },
        InstrM::While { bloco, .. } => {
            lema_lista_preserva(abrir(st), bloco);
            assert(abrir(st).escopos.drop_last() =~= st.escopos);
        },
        _ => {},
    }
}

/// A análise de uma sequência não muda as funções, nem o número de escopos,
/// nem os escopos de fora do mais interno.
pub proof fn lema_lista_preserva(st: EstadoS, s: Seq<InstrM>)
    requires
        analisar_lista(st, s) is Ok,
        st.escopos.len() >= 1,
    ensures
        analisar_lista(st, s)->Ok_0.funcoes == st.funcoes,
        analisar_lista(st, s)->Ok_0.escopos.len() == st.escopos.len(),
        analisar_lista(st, s)->Ok_0.escopos.drop_last() == st.escopos.drop_last(),
    decreases tam_instrs(s), 1nat,
{
    if s.len() > 0 {
        lema_analise_preserva(st, s[0]);
        let s1 = analisar_instr(st, s[0])->Ok_0;
        lema_lista_preserva(s1, s.drop_first());
    }
}

/// `a` é um prefixo de `b`.
pub open spec fn prefixo<A>(a: Seq<A>, b: Seq<A>) -> bool {
    a.len() <= b.len() && b.subrange(0, a.len() as int) == a
}

/// Um prefixo de um prefixo é um prefixo.
pub proof fn lema_prefixo_transitivo<A>(a: Seq<A>, b: Seq<A>, c: Seq<A>)
    requires
        prefixo(a, b),
        prefixo(b, c),
    ensures
        prefixo(a, c),
{
    assert(c.subrange(0, a.len() as int) =~= c.subrange(0, b.len() as int).subrange(
        0,
        a.len() as int,
    ));
}

/// Toda sequência é prefixo dela mesma.
pub proof fn lema_prefixo_reflexivo<A>(a: Seq<A>)
    ensures
        prefixo(a, a),
{
    assert(a.subrange(0, a.len() as int) =~= a);
}

/// Sem o último elemento, uma sequência é prefixo dela mesma.
pub proof fn lema_prefixo_sem_ultimo<A>(a: Seq<A>)
    requires
        a.len() >= 1,
    ensures
        prefixo(a.drop_last(), a),
{
    assert(a.subrange(0, a.len() - 1) =~= a.drop_last());
}

/// O modelo de um resultado de tipo.
pub open spec fn resultado_tipo(r: Result<Tipo, NeoErro>) -> Result<Tipo, ErroModelo> {
    match r {
        Ok(t) => Ok(t),
        Err(e) => Err(e@),
    }
}

/// O modelo de um resultado sem valor, com o estado em que a análise terminou
/// quando não houve erro.
pub open spec fn resultado_analise(r: Result<(), NeoErro>, st: EstadoS) -> Result<
    EstadoS,
    ErroModelo,
> {
    match r {
        Ok(_) => Ok(st),
        Err(e) => Err(e@),
    }
}

/// Avançar uma posição numa sequência: o primeiro elemento do resto a partir
/// de `i` é `s[i]`, e o que vem depois dele é o resto a partir de `i + 1`.
pub proof fn lema_avanco<A>(s: Seq<A>, i: int)
    requires
        0 <= i < s.len(),
    ensures
        s.skip(i).len() > 0,
        s.skip(i)[0] == s[i],
        s.skip(i).drop_first() == s.skip(i + 1),
{
    assert(s.skip(i).drop_first() =~= s.skip(i + 1));
}

/// Um passo da conferência dos argumentos, na posição `i`.
pub proof fn lema_passo_argumentos(st: EstadoS, args: Seq<ExprM>, i: int)
    requires
        0 <= i < args.len(),
    ensures
        tipos_argumentos(st, args.skip(i)) == match tipo_expr(st, args[i]) {
            Err(x) => Err(x),
            Ok(_) => tipos_argumentos(st, args.skip(i + 1)),
        },
{
    lema_avanco(args, i);
}

// ================================================================
// O analisador
// ================================================================

/// O analisador semântico: uma pilha de escopos de tipos (o primeiro é o
/// global) e o número de parâmetros de cada função declarada.
pub struct AnalisadorSemantico {
    escopos: Vec<Vec<(Vec<char>, Simbolo)>>,
    funcoes: Vec<(Vec<char>, usize)>,
}

/// O modelo de um escopo de tipos.
pub open spec fn escopo_tipos(e: Seq<(Vec<char>, Simbolo)>) -> Seq<(Seq<char>, Tipo)> {
    e.map_values(|p: (Vec<char>, Simbolo)| (p.0@, p.1.tipo))
}

/// O modelo da pilha de escopos de tipos.
pub open spec fn escopos_tipos(v: Seq<Vec<(Vec<char>, Simbolo)>>) -> Seq<Seq<(Seq<char>, Tipo)>> {
    v.map_values(|e: Vec<(Vec<char>, Simbolo)>| escopo_tipos(e@))
}

/// O modelo da tabela de aridades.
pub open spec fn aridades(f: Seq<(Vec<char>, usize)>) -> Seq<(Seq<char>, nat)> {
    f.map_values(|p: (Vec<char>, usize)| (p.0@, p.1 as nat))
}

impl View for AnalisadorSemantico {
    type V = EstadoS;

    closed spec fn view(&self) -> EstadoS {
        EstadoS { escopos: escopos_tipos(self.escopos@), funcoes: aridades(self.funcoes@) }
    }
}

proof fn lema_chaves_tipos(e: Seq<(Vec<char>, Simbolo)>)
    ensures
        chaves(escopo_tipos(e)) == chaves_exec(e),
{
    assert(chaves(escopo_tipos(e)) =~= chaves_exec(e));
}

proof fn lema_chaves_aridades(f: Seq<(Vec<char>, usize)>)
    ensures
        chaves(aridades(f)) == chaves_exec(f),
{
    assert(chaves(aridades(f)) =~= chaves_exec(f));
}

fn erro_sem(linha: usize, mensagem: Vec<char>) -> (r: NeoErro)
    ensures
        r@ == erro_semantico(linha as nat, mensagem@),
{
    NeoErro::Semantico { linha, mensagem }
}

fn erro_tipo_em(linha: usize, esperado: Vec<char>, recebido: Vec<char>) -> (r: NeoErro)
    ensures
        r@ == erro_de_tipo(linha as nat, esperado@, recebido@),
{
    NeoErro::Tipo { linha, esperado, recebido }
}

/// `prefixo`, o nome e `sufixo`, em seguida.
fn mensagem_com_nome(prefixo: &str, nome: &[char], sufixo: &str) -> (r: Vec<char>)
    ensures
        r@ == prefixo@ + nome@ + sufixo@,
{
    let mut m = texto_de(prefixo);
    anexar(&mut m, nome);
    anexar_literal(&mut m, sufixo);
    m
}

/// Os nomes de dois tipos separados por `sep`.
fn dois_tipos_exec(a: Tipo, b: Tipo, sep: &str) -> (r: Vec<char>)
    ensures
        r@ == dois_tipos(a, b, sep@),
{
    let mut m = a.nome_texto();
    anexar_literal(&mut m, sep);
    anexar(&mut m, b.nome_texto().as_slice());
    m
}

/// O tipo de uma operação binária, dados os tipos dos operandos.
fn tipo_binario_exec(e: &Expressao, a: Tipo, b: Tipo) -> (r: Result<Tipo, NeoErro>)
    requires
        e.modelo() is Soma || e.modelo() is Subtracao || e.modelo() is Multiplicacao
            || e.modelo() is Divisao || e.modelo() is Modulo || e.modelo() is Maior
            || e.modelo() is Menor || e.modelo() is MaiorIgual || e.modelo() is MenorIgual
            || e.modelo() is Igual || e.modelo() is Diferente || e.modelo() is And
            || e.modelo() is Or,
    ensures
        resultado_tipo(r) == tipo_binario(e.modelo(), a, b),
{
    match e {
        Expressao::Soma(_, _) => {
            if (a == Tipo::Decimal && b == Tipo::Decimal) || (a == Tipo::String && b
                == Tipo::String) {
                Ok(a)
            } else {
                Err(
                    erro_tipo_em(
                        0,
                        texto_de("decimal + decimal ou string + string"),
                        dois_tipos_exec(a, b, " + "),
                    ),
                )
            }
        },
        Expressao::Subtracao(_, _)
        | Expressao::Multiplicacao(_, _)
        | Expressao::Divisao(_, _)
        | Expressao::Modulo(_, _) => {
            if a != Tipo::Decimal || b != Tipo::Decimal {
                Err(erro_tipo_em(0, texto_de("decimal"), dois_tipos_exec(a, b, " e ")))
            } else {
                Ok(Tipo::Decimal)
            }
        },
        Expressao::Maior(_, _)
        | Expressao::Menor(_, _)
        | Expressao::MaiorIgual(_, _)
        | Expressao::MenorIgual(_, _) => {
            if a != Tipo::Decimal || b != Tipo::Decimal {
                Err(
                    erro_tipo_em(0, texto_de("dois valores decimal"), dois_tipos_exec(a, b, " e ")),
                )
            } else {
                Ok(Tipo::Boolean)
            }
        },
        Expressao::Igual(_, _) | Expressao::Diferente(_, _) => {
            if a != b {
                Err(erro_tipo_em(0, a.nome_texto(), b.nome_texto()))
            } else {
                Ok(Tipo::Boolean)
            }
        },
        _ => {
            if a != Tipo::Boolean || b != Tipo::Boolean {
                Err(erro_tipo_em(0, texto_de("boolean"), dois_tipos_exec(a, b, " e ")))
            } else {
                Ok(Tipo::Boolean)
            }
        },
    }
}

impl AnalisadorSemantico {
    /// Um analisador novo: só o escopo global, vazio, e nenhuma função.
    pub fn novo() -> (r: AnalisadorSemantico)
        ensures
            r@ == (EstadoS { escopos: seq![Seq::empty()], funcoes: Seq::empty() }),
    {
        let mut escopos: Vec<Vec<(Vec<char>, Simbolo)>> = Vec::new();
        escopos.push(Vec::new());
        let r = AnalisadorSemantico { escopos, funcoes: Vec::new() };
        assert(escopo_tipos(r.escopos@[0]@) =~= Seq::empty());
        assert(r@.escopos =~= seq![Seq::<(Seq<char>, Tipo)>::empty()]);
        assert(r@.funcoes =~= Seq::empty());
        r
    }

    /// O tipo da variável `nome` no escopo mais interno que a declara.
    pub fn buscar_variavel(&self, nome: &[char]) -> (r: Option<Tipo>)
        ensures
            r == buscar(self@.escopos, nome@),
    {
        let n = self.escopos.len();
        let mut i: usize = n;
        while i > 0
            invariant
                i <= n,
                n == self@.escopos.len(),
                forall|j: int| i <= j < n ==> !tem_chave(#[trigger] self@.escopos[j], nome@),
            decreases i,
        {
            i = i - 1;
            proof {
                lema_chaves_tipos(self.escopos@[i as int]@);
            }
            match procurar(&self.escopos[i], nome) {
                Some(p) => {
                    proof {
                        lema_escopo_de(self@.escopos, nome@, i as int);
                    }
                    return Some(self.escopos[i][p].1.tipo);
                },
                None => {},
            }
        }
        None
    }

    /// Abre um escopo vazio.
    pub fn entrar_escopo(&mut self)
        ensures
            final(self)@ == abrir(old(self)@),
    {
        self.escopos.push(Vec::new());
        proof {
            let novo: Seq<(Vec<char>, Simbolo)> = Seq::empty();
            assert(escopo_tipos(novo) =~= Seq::empty());
            assert(self@.escopos =~= old(self)@.escopos.push(Seq::empty()));
        }
    }

    /// Fecha o escopo mais interno, se houver algum.
    pub fn sair_escopo(&mut self)
        ensures
            final(self)@ == fechar(old(self)@),
    {
        self.escopos.pop();
        proof {
            if old(self)@.escopos.len() > 0 {
                assert(self@.escopos =~= old(self)@.escopos.drop_last());
            } else {
                assert(self@.escopos =~= old(self)@.escopos);
            }
        }
    }

    /// Declara `nome` com o tipo `t` no escopo mais interno.
    fn declarar(&mut self, nome: &[char], t: Tipo)
        requires
            old(self)@.escopos.len() >= 1,
        ensures
            final(self)@ == declarar_tipo(old(self)@, nome@, t),
    {
        let k = self.escopos.len() - 1;
        let ghost antes = self.escopos@[k as int]@;
        proof {
            lema_chaves_tipos(antes);
        }
        let chave = copiar(nome);
        match procurar(&self.escopos[k], nome) {
            Some(p) => {
                self.escopos[k].set(p, (chave, Simbolo { tipo: t }));
                assert(escopo_tipos(self.escopos@[k as int]@) =~= escopo_tipos(antes).update(
                    p as int,
                    (nome@, t),
                ));
            },
            None => {
                self.escopos[k].push((chave, Simbolo { tipo: t }));
                assert(escopo_tipos(self.escopos@[k as int]@) =~= escopo_tipos(antes).push(
                    (nome@, t),
                ));
            },
        }
        assert(self@.escopos =~= old(self)@.escopos.update(
            k as int,
            inserir(old(self)@.escopos.last(), nome@, t),
        ));
    }

    /// O tipo de uma expressão.
    pub fn expressao(&self, expressao: &Expressao) -> (r: Result<Tipo, NeoErro>)
        ensures
            resultado_tipo(r) == tipo_expr(self@, expressao.modelo()),
        decreases tam_expr(expressao.modelo()), 0nat,
    {
        match expressao {
            Expressao::Decimal(_) => Ok(Tipo::Decimal),
            Expressao::String(_) => Ok(Tipo::String),
            Expressao::Boolean(_) => Ok(Tipo::Boolean),
            Expressao::Variavel(nome) => match self.buscar_variavel(nome.as_slice()) {
                Some(t) => Ok(t),
                None => Err(
                    erro_sem(0, mensagem_com_nome("Variável '", nome.as_slice(), "' não existe.")),
                ),
            },
            Expressao::Negativo(valor) => {
                let t = self.expressao(valor)?;
                if t != Tipo::Decimal {
                    return Err(erro_tipo_em(0, texto_de("decimal"), t.nome_texto()));
                }
                Ok(Tipo::Decimal)
            },
            Expressao::Not(valor) => {
                let t = self.expressao(valor)?;
                if t != Tipo::Boolean {
                    return Err(erro_tipo_em(0, texto_de("boolean"), t.nome_texto()));
                }
                Ok(Tipo::Boolean)
            },
            Expressao::Chamada { nome, argumentos } => self.tipo_chamada(nome, argumentos),
            Expressao::Soma(a, b)
            | Expressao::Subtracao(a, b)
            | Expressao::Multiplicacao(a, b)
            | Expressao::Divisao(a, b)
            | Expressao::Modulo(a, b)
            | Expressao::Maior(a, b)
            | Expressao::Menor(a, b)
            | Expressao::MaiorIgual(a, b)
            | Expressao::MenorIgual(a, b)
            | Expressao::Igual(a, b)
            | Expressao::Diferente(a, b)
            | Expressao::And(a, b)
            | Expressao::Or(a, b) => {
                let ta = self.expressao(a)?;
                let tb = self.expressao(b)?;
                tipo_binario_exec(expressao, ta, tb)
            },
        }
    }

    /// O tipo de uma chamada: a função existe, recebe o número certo de
    /// argumentos e cada argumento tem um tipo.
    fn tipo_chamada(&self, nome: &Vec<char>, argumentos: &Vec<Expressao>) -> (r: Result<
        Tipo,
        NeoErro,
    >)
        ensures
            resultado_tipo(r) == tipo_expr(
                self@,
                ExprM::Chamada { nome: nome@, argumentos: modelos_expr(argumentos@) },
            ),
        decreases tam_exprs(modelos_expr(argumentos@)), 1nat,
    {
        let ghost args = modelos_expr(argumentos@);
        proof {
            lema_chaves_aridades(self.funcoes@);
            lema_modelos_expr(argumentos@);
        }
        let esperado = match procurar(&self.funcoes, nome.as_slice()) {
            None => {
                return Err(
                    erro_sem(0, mensagem_com_nome("Função '", nome.as_slice(), "' não existe.")),
                );
            },
            Some(p) => self.funcoes[p].1,
        };
        assert(valor_de(self@.funcoes, nome@) == Some(esperado as nat));
        if argumentos.len() != esperado {
            let mut m = mensagem_com_nome("Função '", nome.as_slice(), "' espera ");
            anexar(&mut m, numero_texto(esperado).as_slice());
            anexar_literal(&mut m, " argumento(s), mas recebeu ");
            anexar(&mut m, numero_texto(argumentos.len()).as_slice());
            anexar_literal(&mut m, ".");
            return Err(erro_sem(0, m));
        }
        let n = argumentos.len();
        let mut i: usize = 0;
        let ghost alvo = tipo_expr(self@, ExprM::Chamada { nome: nome@, argumentos: args });
        assert(args.skip(0) == args);
        assert(alvo == match tipos_argumentos(self@, args) {
            Err(x) => Err(x),
            Ok(_) => Ok(Tipo::Vazio),
        });
        while i < n
            invariant
                n == argumentos@.len(),
                args == modelos_expr(argumentos@),
                args.len() == n,
                forall|j: int| 0 <= j < n ==> #[trigger] args[j] == argumentos@[j].modelo(),
                i <= n,
                alvo == tipo_expr(self@, ExprM::Chamada { nome: nome@, argumentos: args }),
                alvo == match tipos_argumentos(self@, args.skip(i as int)) {
                    Err(x) => Err(x),
                    Ok(_) => Ok(Tipo::Vazio),
                },
            decreases n - i,
        {
            proof {
                lema_passo_argumentos(self@, args, i as int);
                lema_tam_exprs(args, i as int);
            }
            match self.expressao(&argumentos[i]) {
                Err(e) => {
                    return Err(e);
                },
                Ok(_) => {},
            }
            i = i + 1;
        }
        assert(args.skip(n as int) =~= Seq::<ExprM>::empty());
        Ok(Tipo::Vazio)
    }
}

/// Põe a linha de uma instrução `display` num erro de tipo.
fn com_linha_exec(e: NeoErro, linha: usize) -> (r: NeoErro)
    ensures
        r@ == com_linha(e@, linha as nat),
{
    match e {
        NeoErro::Tipo { esperado, recebido, .. } => NeoErro::Tipo { linha, esperado, recebido },
        outro => outro,
    }
}

/// Um passo da análise de uma sequência, na posição `i`.
pub proof fn lema_passo_lista(st: EstadoS, s: Seq<InstrM>, i: int)
    requires
        0 <= i < s.len(),
    ensures
        analisar_lista(st, s.skip(i)) == match analisar_instr(st, s[i]) {
            Err(x) => Err(x),
            Ok(s1) => analisar_lista(s1, s.skip(i + 1)),
        },
{
    lema_avanco(s, i);
}

impl AnalisadorSemantico {
    /// Analisa uma instrução.
    pub fn instruacao(&mut self, instrucao: &Instrucao) -> (r: Result<(), NeoErro>)
        requires
            old(self)@.escopos.len() >= 1 || !(instrucao.modelo() is Declarar),
        ensures
            resultado_analise(r, final(self)@) == analisar_instr(old(self)@, instrucao.modelo()),
            r is Ok ==> final(self)@.escopos.len() == old(self)@.escopos.len(),
            r is Ok ==> final(self)@.funcoes == old(self)@.funcoes,
            r is Err && !(instrucao.modelo() is If || instrucao.modelo() is While)
                ==> final(self)@ == old(self)@,
            r is Err ==> final(self)@.funcoes == old(self)@.funcoes && prefixo(
                old(self)@.escopos,
                final(self)@.escopos,
            ),
        decreases tam_instr(instrucao.modelo()), 2nat,
    {
        proof {
            lema_prefixo_reflexivo(old(self)@.escopos);
        }
        match instrucao {
            Instrucao::Declarar { tipo, nome, valor, linha } => {
                let k = self.escopos.len() - 1;
                proof {
                    lema_chaves_tipos(self.escopos@[k as int]@);
                }
                match procurar(&self.escopos[k], nome.as_slice()) {
                    Some(_) => {
                        return Err(
                            erro_sem(
                                *linha,
                                mensagem_com_nome(
                                    "A variável '",
                                    nome.as_slice(),
                                    "' já foi declarada neste escopo.",
                                ),
                            ),
                        );
                    },
                    None => {},
                }
                let t = match self.expressao(valor) {
                    Err(e) => {
                        return Err(e);
                    },
                    Ok(t) => t,
                };
                if t != *tipo {
                    return Err(erro_tipo_em(*linha, tipo.nome_texto(), t.nome_texto()));
                }
                self.declarar(nome.as_slice(), *tipo);
                Ok(())
            },
            Instrucao::Atribuir { nome, operador, valor, linha } => {
                let tv = match self.buscar_variavel(nome.as_slice()) {
                    None => {
                        return Err(
                            erro_sem(
                                *linha,
                                mensagem_com_nome("Variável '", nome.as_slice(), "' não existe."),
                            ),
                        );
                    },
                    Some(t) => t,
                };
                let t = match self.expressao(valor) {
                    Err(e) => {
                        return Err(e);
                    },
                    Ok(t) => t,
                };
                if *operador == OperadorAtribuicao::Igual {
                    if tv != t {
                        return Err(erro_tipo_em(*linha, tv.nome_texto(), t.nome_texto()));
                    }
                } else if tv != Tipo::Decimal || t != Tipo::Decimal {
                    return Err(
                        erro_tipo_em(*linha, texto_de("decimal"), dois_tipos_exec(tv, t, " e ")),
                    );
                }
                Ok(())
            },
            Instrucao::Display { valor, linha } => match self.expressao(valor) {
                Err(e) => Err(com_linha_exec(e, *linha)),
                Ok(_) => Ok(()),
            },
            Instrucao::If { .. } => self.analisar_se(instrucao),
            Instrucao::While { .. } => self.analisar_enquanto(instrucao),
            Instrucao::Funcao { .. } => Ok(()),
            Instrucao::Return { valor, .. } => match self.expressao(valor) {
                Err(e) => Err(e),
                Ok(_) => Ok(()),
            },
        }
    }

    /// Analisa um `if`: a condição, e cada ramo num escopo novo.
    fn analisar_se(&mut self, instrucao: &Instrucao) -> (r: Result<(), NeoErro>)
        requires
            instrucao.modelo() is If,
        ensures
            resultado_analise(r, final(self)@) == analisar_instr(old(self)@, instrucao.modelo()),
            r is Ok ==> final(self)@.escopos.len() == old(self)@.escopos.len(),
            r is Ok ==> final(self)@.funcoes == old(self)@.funcoes,
            r is Err ==> final(self)@.funcoes == old(self)@.funcoes && prefixo(
                old(self)@.escopos,
                final(self)@.escopos,
            ),
        decreases tam_instr(instrucao.modelo()), 1nat,
    {
        let ghost st = self@;
        match instrucao {
            Instrucao::If { condicao, verdadeiro, falso, linha } => {
                let t = match self.expressao(condicao) {
                    Err(e) => {
                        proof {
                            lema_prefixo_reflexivo(st.escopos);
                        }
                        return Err(e);
                    },
                    Ok(t) => t,
                };
                if t != Tipo::Boolean {
                    proof {
                        lema_prefixo_reflexivo(st.escopos);
                    }
                    return Err(erro_tipo_em(*linha, texto_de("boolean"), t.nome_texto()));
                }
                self.entrar_escopo();
                assert(abrir(st).escopos.drop_last() =~= st.escopos);
                match self.analisar_bloco(verdadeiro) {
                    Err(e) => {
                        return Err(e);
                    },
                    Ok(_) => {},
                }
                let ghost s1 = self@;
                proof {
                    lema_lista_preserva(abrir(st), modelos_instr(verdadeiro@));
                }
                self.sair_escopo();
                self.entrar_escopo();
                assert(self@.escopos.drop_last() =~= st.escopos);
                match self.analisar_bloco(falso) {
                    Err(e) => {
                        return Err(e);
                    },
                    Ok(_) => {},
                }
                self.sair_escopo();
                Ok(())
            },
            _ => Ok(()),
        }
    }

    /// Analisa um `while`: a condição, e o corpo num escopo novo.
    fn analisar_enquanto(&mut self, instrucao: &Instrucao) -> (r: Result<(), NeoErro>)
        requires
            instrucao.modelo() is While,
        ensures
            resultado_analise(r, final(self)@) == analisar_instr(old(self)@, instrucao.modelo()),
            r is Ok ==> final(self)@.escopos.len() == old(self)@.escopos.len(),
            r is Ok ==> final(self)@.funcoes == old(self)@.funcoes,
            r is Err ==> final(self)@.funcoes == old(self)@.funcoes && prefixo(
                old(self)@.escopos,
                final(self)@.escopos,
            ),
        decreases tam_instr(instrucao.modelo()), 1nat,
    {
        let ghost st = self@;
        match instrucao {
            Instrucao::While { condicao, bloco, linha } => {
                let t = match self.expressao(condicao) {
                    Err(e) => {
                        proof {
                            lema_prefixo_reflexivo(st.escopos);
                        }
                        return Err(e);
                    },
                    Ok(t) => t,
                };
                if t != Tipo::Boolean {
                    proof {
                        lema_prefixo_reflexivo(st.escopos);
                    }
                    return Err(erro_tipo_em(*linha, texto_de("boolean"), t.nome_texto()));
                }
                self.entrar_escopo();
                assert(abrir(st).escopos.drop_last() =~= st.escopos);
                match self.analisar_bloco(bloco) {
                    Err(e) => {
                        return Err(e);
                    },
                    Ok(_) => {},
                }
                self.sair_escopo();
                Ok(())
            },
            _ => Ok(()),
        }
    }

    /// Analisa as instruções de um bloco, em ordem, no escopo corrente.
    fn analisar_bloco(&mut self, bloco: &Vec<Instrucao>) -> (r: Result<(), NeoErro>)
        requires
            old(self)@.escopos.len() >= 1,
        ensures
            resultado_analise(r, final(self)@) == analisar_lista(
                old(self)@,
                modelos_instr(bloco@),
            ),
            r is Ok ==> final(self)@.escopos.len() == old(self)@.escopos.len(),
            r is Ok ==> final(self)@.funcoes == old(self)@.funcoes,
            r is Err ==> final(self)@.funcoes == old(self)@.funcoes && prefixo(
                old(self)@.escopos.drop_last(),
                final(self)@.escopos,
            ),
        decreases tam_instrs(modelos_instr(bloco@)), 1nat,
    {
        let ghost m = modelos_instr(bloco@);
        proof {
            lema_modelos_instr(bloco@);
        }
        let n = bloco.len();
        let mut i: usize = 0;
        assert(m.skip(0) == m);
        while i < n
            invariant
                n == bloco@.len(),
                m == modelos_instr(bloco@),
                m.len() == n,
                forall|j: int| 0 <= j < n ==> #[trigger] m[j] == bloco@[j].modelo(),
                i <= n,
                old(self)@.escopos.len() >= 1,
                self@.escopos.len() == old(self)@.escopos.len(),
                self@.escopos.drop_last() == old(self)@.escopos.drop_last(),
                self@.funcoes == old(self)@.funcoes,
                analisar_lista(old(self)@, m) == analisar_lista(self@, m.skip(i as int)),
            decreases n - i,
        {
            proof {
                lema_passo_lista(self@, m, i as int);
                lema_tam_instrs(m, i as int);
            }
            let ghost antes = self@;
            match self.instruacao(&bloco[i]) {
                Err(e) => {
                    proof {
                        lema_prefixo_sem_ultimo(antes.escopos);
                        lema_prefixo_transitivo(antes.escopos.drop_last(), antes.escopos, self@.escopos);
                    }
                    return Err(e);
                },
                Ok(_) => {
                    proof {
                        lema_analise_preserva(antes, m[i as int]);
                    }
                },
            }
            i = i + 1;
        }
        assert(m.skip(n as int) =~= Seq::<InstrM>::empty());
        Ok(())
    }

    /// Analisa um programa: registra as funções declaradas (um nome repetido
    /// é um erro) e analisa, em ordem, as demais instruções.
    pub fn analisar(&mut self, programa: &[Instrucao]) -> (r: Result<(), NeoErro>)
        requires
            old(self)@.escopos.len() >= 1 || forall|k: int|
                0 <= k < programa@.len() ==> !(#[trigger] programa@[k].modelo() is Declarar),
        ensures
            resultado_analise(r, final(self)@) == analisar_programa(
                old(self)@,
                modelos_instr(programa@),
            ),
            r is Err ==> prefixo(old(self)@.funcoes, final(self)@.funcoes),
            r is Err && old(self)@.escopos.len() >= 1 ==> prefixo(
                old(self)@.escopos.drop_last(),
                final(self)@.escopos,
            ),
    {
        let ghost m = modelos_instr(programa@);
        proof {
            lema_prefixo_reflexivo(old(self)@.funcoes);
            if old(self)@.escopos.len() >= 1 {
                lema_prefixo_sem_ultimo(old(self)@.escopos);
            }
        }
        proof {
            lema_modelos_instr(programa@);
        }
        let n = programa.len();
        let mut i: usize = 0;
        assert(m.skip(0) == m);
        while i < n
            invariant
                n == programa@.len(),
                m == modelos_instr(programa@),
                m.len() == n,
                forall|j: int| 0 <= j < n ==> #[trigger] m[j] == programa@[j].modelo(),
                i <= n,
                self@.escopos == old(self)@.escopos,
                prefixo(old(self)@.funcoes, self@.funcoes),
                old(self)@.escopos.len() >= 1 ==> prefixo(
                    old(self)@.escopos.drop_last(),
                    old(self)@.escopos,
                ),
                registrar_funcoes(old(self)@.funcoes, m) == registrar_funcoes(
                    self@.funcoes,
                    m.skip(i as int),
                ),
            decreases n - i,
        {
            proof {
                lema_avanco(m, i as int);
                lema_chaves_aridades(self.funcoes@);
            }
            match &programa[i] {
                Instrucao::Funcao { nome, parametros, linha, .. } => {
                    match procurar(&self.funcoes, nome.as_slice()) {
                        Some(_) => {
                            return Err(
                                erro_sem(
                                    *linha,
                                    mensagem_com_nome(
                                        "A função '",
                                        nome.as_slice(),
                                        "' já foi declarada.",
                                    ),
                                ),
                            );
                        },
                        None => {},
                    }
                    let chave = copiar(nome.as_slice());
                    let ghost antes = self.funcoes@;
                    let ghost antes_modelo = self@.funcoes;
                    self.funcoes.push((chave, parametros.len()));
                    assert(aridades(self.funcoes@) =~= aridades(antes).push(
                        (nome@, parametros@.len() as nat),
                    ));
                    proof {
                        assert(self@.funcoes.subrange(0, antes_modelo.len() as int)
                            =~= antes_modelo);
                        lema_prefixo_transitivo(old(self)@.funcoes, antes_modelo, self@.funcoes);
                    }
                },
                _ => {},
            }
            i = i + 1;
        }
        assert(m.skip(n as int) =~= Seq::<InstrM>::empty());
        let mut i: usize = 0;
        while i < n
            invariant
                n == programa@.len(),
                m == modelos_instr(programa@),
                m.len() == n,
                forall|j: int| 0 <= j < n ==> #[trigger] m[j] == programa@[j].modelo(),
                i <= n,
                old(self)@.escopos.len() >= 1 || forall|k: int|
                    0 <= k < n ==> !(#[trigger] m[k] is Declarar),
                self@.escopos.len() == old(self)@.escopos.len(),
                old(self)@.escopos.len() >= 1
                    ==> self@.escopos.drop_last() == old(self)@.escopos.drop_last(),
                old(self)@.escopos.len() >= 1 ==> prefixo(
                    old(self)@.escopos.drop_last(),
                    old(self)@.escopos,
                ),
                prefixo(old(self)@.funcoes, self@.funcoes),
                analisar_programa(old(self)@, m) == analisar_topo(self@, m.skip(i as int)),
            decreases n - i,
        {
            proof {
                lema_avanco(m, i as int);
            }
            let ghost antes = self@;
            match &programa[i] {
                Instrucao::Funcao { .. } => {},
                instrucao => {
                    match self.instruacao(instrucao) {
                        Err(e) => {
                            proof {
                                if old(self)@.escopos.len() >= 1 {
                                    lema_prefixo_sem_ultimo(antes.escopos);
                                    lema_prefixo_transitivo(
                                        antes.escopos.drop_last(),
                                        antes.escopos,
                                        self@.escopos,
                                    );
                                }
                            }
                            return Err(e);
                        },
                        Ok(_) => {
                            proof {
                                if old(self)@.escopos.len() >= 1 {
                                    lema_analise_preserva(antes, m[i as int]);
                                }
                            }
                        },
                    }
                },
            }
            i = i + 1;
        }
        assert(m.skip(n as int) =~= Seq::<InstrM>::empty());
        Ok(())
    }
}

} // verus!
