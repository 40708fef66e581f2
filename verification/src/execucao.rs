//! O caminho completo de um código-fonte: lexer, parser, análise semântica e
//! execução, com as linhas de progresso que o interpretador escreve.
use vstd::prelude::*;
use crate::ast::{InstrM, Instrucao, instrs_wf, modelos_instr};
use crate::gramatica::{sintaxe, terminada};
use crate::lexer::{Token, TokenModelo, lex, lex_spec, modelos_tokens};
use crate::parser::Parser;
use crate::runtime::Runtime;
use crate::semantica::{EstadoR, executar_programa};
use crate::semantico::{AnalisadorSemantico, EstadoS, analisar_programa};
use crate::texto::{anexar, anexar_literal, copiar, digitos, numero_texto, texto_de};
use crate::valores::{ErroModelo, NeoErro};

verus! {

/// O estado do analisador semântico novo.
pub open spec fn analise_inicial() -> EstadoS {
    EstadoS { escopos: seq![Seq::empty()], funcoes: Seq::empty() }
}

/// O estado do interpretador novo.
pub open spec fn execucao_inicial() -> EstadoR {
    EstadoR { variaveis: seq![Seq::empty()], funcoes: Seq::empty(), saida: Seq::empty() }
}

/// A linha de progresso do lexer.
pub open spec fn linha_tokens(n: nat) -> Seq<char> {
    "Lexer: "@ + digitos(n) + " tokens."@
}

/// Uma linha de progresso seguida do resto do relatório.
pub open spec fn com_linha_antes(linha: Seq<char>, resto: (Seq<Seq<char>>, Option<ErroModelo>)) -> (
    Seq<Seq<char>>,
    Option<ErroModelo>,
) {
    (seq![linha] + resto.0, resto.1)
}

/// O relatório da execução de um programa já analisado: as linhas de
/// `display` e, sem erro, uma linha vazia e a mensagem de sucesso.
pub open spec fn relatorio_execucao(programa: Seq<InstrM>) -> (Seq<Seq<char>>, Option<ErroModelo>) {
    let (st, r) = executar_programa(execucao_inicial(), programa);
    match r {
        Err(e) => (st.saida, Some(e)),
        Ok(_) => (st.saida + seq![Seq::empty(), "Programa executado com sucesso."@], None),
    }
}

/// O relatório a partir da análise semântica de um programa lido.
pub open spec fn relatorio_analise(programa: Seq<InstrM>) -> (Seq<Seq<char>>, Option<ErroModelo>) {
    match analisar_programa(analise_inicial(), programa) {
        Err(e) => (Seq::empty(), Some(e)),
        Ok(_) => com_linha_antes("Semântica: programa válido."@, relatorio_execucao(programa)),
    }
}

/// O relatório a partir da leitura dos tokens.
pub open spec fn relatorio_sintaxe(ts: Seq<TokenModelo>) -> (Seq<Seq<char>>, Option<ErroModelo>) {
    match sintaxe(ts) {
        Err(e) => (Seq::empty(), Some(e)),
        Ok(programa) => com_linha_antes("Parser: AST construída."@, relatorio_analise(programa)),
    }
}

/// O que a execução de um código escreve na saída padrão depois do
/// cabeçalho, linha a linha, e o erro que a interrompeu, se houve: a linha
/// de progresso de cada etapa concluída (lexer, parser, análise), as linhas
/// de `display` e, no fim de uma execução sem erro, uma linha vazia e a
/// mensagem de sucesso.
pub open spec fn relatorio(codigo: Seq<char>) -> (Seq<Seq<char>>, Option<ErroModelo>) {
    match lex_spec(codigo) {
        Err(e) => (Seq::empty(), Some(e)),
        Ok(ts) => com_linha_antes(linha_tokens(ts.len()), relatorio_sintaxe(ts)),
    }
}

/// O resultado da execução de um código: as linhas escritas na saída padrão
/// depois do cabeçalho e o erro que a interrompeu, se houve.
pub struct Relatorio {
    pub linhas: Vec<Vec<char>>,
    pub erro: Option<NeoErro>,
}

/// O modelo de um relatório.
pub open spec fn modelo_relatorio(r: Relatorio) -> (Seq<Seq<char>>, Option<ErroModelo>) {
    (
        r.linhas@.map_values(|l: Vec<char>| l@),
        match r.erro {
            Some(e) => Some(e@),
            None => None,
        },
    )
}

/// Acrescenta a `linhas` cópias das linhas de `saida`.
fn anexar_linhas(linhas: &mut Vec<Vec<char>>, saida: &Vec<Vec<char>>)
    ensures
        final(linhas)@.map_values(|l: Vec<char>| l@) == old(linhas)@.map_values(
            |l: Vec<char>| l@,
        ) + saida@.map_values(|l: Vec<char>| l@),
{
    let ghost inicio = linhas@.map_values(|l: Vec<char>| l@);
    let n = saida.len();
    let mut i: usize = 0;
    while i < n
        invariant
            n == saida@.len(),
            i <= n,
            linhas@.map_values(|l: Vec<char>| l@) == inicio + saida@.map_values(
                |l: Vec<char>| l@,
            ).take(i as int),
        decreases n - i,
    {
        let ghost antes = linhas@;
        linhas.push(copiar(saida[i].as_slice()));
        assert(linhas@.map_values(|l: Vec<char>| l@) =~= antes.map_values(|l: Vec<char>| l@).push(
            saida@[i as int]@,
        ));
        assert(saida@.map_values(|l: Vec<char>| l@).take(i + 1) =~= saida@.map_values(
            |l: Vec<char>| l@,
        ).take(i as int).push(saida@[i as int]@));
        i = i + 1;
    }
    assert(saida@.map_values(|l: Vec<char>| l@).take(n as int) =~= saida@.map_values(
        |l: Vec<char>| l@,
    ));
}

/// O relatório com uma linha de progresso à frente.
fn prefixar_linha(linha: Vec<char>, r: Relatorio) -> (s: Relatorio)
    ensures
        modelo_relatorio(s) == com_linha_antes(linha@, modelo_relatorio(r)),
{
    let mut linhas: Vec<Vec<char>> = Vec::new();
    linhas.push(linha);
    anexar_linhas(&mut linhas, &r.linhas);
    Relatorio { linhas, erro: r.erro }
}

/// Executa um programa já analisado.
fn rodar<F: Fn(Vec<char>)>(programa: &Vec<Instrucao>, escrever: &F) -> (r: Relatorio)
    requires
        forall|l: Vec<char>| escrever.requires((l,)),
        instrs_wf(modelos_instr(programa@)),
    ensures
        modelo_relatorio(r) == relatorio_execucao(modelos_instr(programa@)),
{
    let mut runtime = Runtime::novo();
    let resultado = runtime.executar(escrever, programa.as_slice());
    let mut linhas: Vec<Vec<char>> = Vec::new();
    assert(linhas@.map_values(|l: Vec<char>| l@) =~= Seq::<Seq<char>>::empty());
    anexar_linhas(&mut linhas, runtime.saida());
    let ghost saida = linhas@.map_values(|l: Vec<char>| l@);
    match resultado {
        Err(e) => Relatorio { linhas, erro: Some(e) },
        Ok(_) => {
            escrever(Vec::new());
            escrever(texto_de("Programa executado com sucesso."));
            linhas.push(Vec::new());
            linhas.push(texto_de("Programa executado com sucesso."));
            assert(linhas@.map_values(|l: Vec<char>| l@) =~= saida + seq![
                Seq::<char>::empty(),
                "Programa executado com sucesso."@,
            ]);
            Relatorio { linhas, erro: None }
        },
    }
}

/// Analisa um programa lido e, se ele for válido, executa-o.
fn analisar_e_rodar<F: Fn(Vec<char>)>(programa: &Vec<Instrucao>, escrever: &F) -> (r: Relatorio)
    requires
        forall|l: Vec<char>| escrever.requires((l,)),
        instrs_wf(modelos_instr(programa@)),
    ensures
        modelo_relatorio(r) == relatorio_analise(modelos_instr(programa@)),
{
    let mut semantico = AnalisadorSemantico::novo();
    match semantico.analisar(programa.as_slice()) {
        Err(e) => {
            let linhas: Vec<Vec<char>> = Vec::new();
            assert(linhas@.map_values(|l: Vec<char>| l@) =~= Seq::<Seq<char>>::empty());
            Relatorio { linhas, erro: Some(e) }
        },
        Ok(_) => {
            escrever(texto_de("Semântica: programa válido."));
            prefixar_linha(texto_de("Semântica: programa válido."), rodar(programa, escrever))
        },
    }
}

/// Lê o programa dos tokens e segue com a análise e a execução.
fn ler_e_rodar<F: Fn(Vec<char>)>(tokens: Vec<Token>, escrever: &F) -> (r: Relatorio)
    requires
        forall|l: Vec<char>| escrever.requires((l,)),
        terminada(modelos_tokens(tokens@)),
    ensures
        modelo_relatorio(r) == relatorio_sintaxe(modelos_tokens(tokens@)),
{
    let mut parser = Parser::novo(tokens);
    match parser.analisar() {
        Err(e) => {
            let linhas: Vec<Vec<char>> = Vec::new();
            assert(linhas@.map_values(|l: Vec<char>| l@) =~= Seq::<Seq<char>>::empty());
            Relatorio { linhas, erro: Some(e) }
        },
        Ok(programa) => {
            escrever(texto_de("Parser: AST construída."));
            prefixar_linha(texto_de("Parser: AST construída."), analisar_e_rodar(&programa, escrever))
        },
    }
}

/// Processa um código-fonte: lexer, parser, análise semântica e execução.
/// Cada linha do relatório é também entregue a `escrever` no momento em que
/// é produzida (as de progresso ao fim de cada etapa, as de `display` durante
/// a execução), na ordem do relatório.
pub fn executar_codigo<F: Fn(Vec<char>)>(codigo: &str, escrever: &F) -> (r: Relatorio)
    requires
        codigo@.len() < usize::MAX,
        forall|l: Vec<char>| escrever.requires((l,)),
    ensures
        modelo_relatorio(r) == relatorio(codigo@),
{
    match lex(codigo) {
        Err(e) => {
            let linhas: Vec<Vec<char>> = Vec::new();
            assert(linhas@.map_values(|l: Vec<char>| l@) =~= Seq::<Seq<char>>::empty());
            Relatorio { linhas, erro: Some(e) }
        },
        Ok(tokens) => {
            let mut l = texto_de("Lexer: ");
            anexar(&mut l, numero_texto(tokens.len()).as_slice());
            anexar_literal(&mut l, " tokens.");
            escrever(copiar(l.as_slice()));
            prefixar_linha(l, ler_e_rodar(tokens, escrever))
        },
    }
}

} // verus!
