//! O interpretador: executa um programa já analisado sobre uma pilha de
//! escopos, guardando as linhas que `display` escreve.
use vstd::prelude::*;
use crate::ast::{
    Expressao, ExprM, Instrucao, InstrM, OperadorAtribuicao, copiar_bloco, copiar_nomes, expr_wf,
    exprs_wf, instr_wf, instrs_wf, lema_exprs_wf, lema_instrs_wf, lema_modelos_expr,
    lema_modelos_instr, lema_tam_instrs, modelos_expr, modelos_instr, modelos_nomes, tam_expr,
    tam_exprs, tam_instr, tam_instrs,
};
use crate::decimal::{Dec, dividir, e_zero, menor, multiplicar, negar, resto, somar, subtrair};
use crate::semantica::{
    Comparacao, EstadoR, FuncaoM, OperacaoDecimal, aplicar_atribuicao, avaliar, booleano, combinar,
    combustivel_inicial, comparar_valores, declarar, desempilhar, dividir_valores, empilhar,
    erro_estouro, erro_execucao, erro_tipo, estado_wf, executar_bloco, executar_instrucao,
    executar_programa, executar_sequencia, executar_topo, interpolar, interpolar_escopo, marcador,
    msg_variavel_inexistente, operar_decimais, registrar, repetir, resto_valores, somar_valores,
    tipos_de, valor_wf, avaliar_argumentos,
};
use crate::tabela::{
    buscar, chaves, chaves_exec, escopo_de, inserir, lema_escopo_de, primeira, procurar, tem_chave,
    valor_de,
};
use crate::texto::{anexar, anexar_literal, copiar, numero_texto, substituir, texto_de};
use crate::valores::{ErroModelo, NeoErro, NeoValor, Tipo, ValorModelo};

verus! {

/// Uma função registrada: parâmetros e corpo.
pub struct Funcao {
    pub parametros: Vec<Vec<char>>,
    pub bloco: Vec<Instrucao>,
}

impl Funcao {
    /// O modelo da função.
    pub open spec fn modelo(&self) -> FuncaoM {
        FuncaoM { parametros: modelos_nomes(self.parametros@), bloco: modelos_instr(self.bloco@) }
    }
}

/// O contexto de execução: escopos de variáveis (o primeiro é o global),
/// funções registradas e as linhas escritas por `display`.
pub struct Runtime {
    variaveis: Vec<Vec<(Vec<char>, NeoValor)>>,
    funcoes: Vec<(Vec<char>, Funcao)>,
    saida: Vec<Vec<char>>,
}

/// O modelo de um escopo.
pub open spec fn escopo_modelo(e: Seq<(Vec<char>, NeoValor)>) -> Seq<(Seq<char>, ValorModelo)> {
    e.map_values(|p: (Vec<char>, NeoValor)| (p.0@, p.1@))
}

/// O modelo da pilha de escopos.
pub open spec fn escopos_modelo(v: Seq<Vec<(Vec<char>, NeoValor)>>) -> Seq<
    Seq<(Seq<char>, ValorModelo)>,
> {
    v.map_values(|e: Vec<(Vec<char>, NeoValor)>| escopo_modelo(e@))
}

/// O modelo da tabela de funções.
pub open spec fn funcoes_modelo(f: Seq<(Vec<char>, Funcao)>) -> Seq<(Seq<char>, FuncaoM)> {
    f.map_values(|p: (Vec<char>, Funcao)| (p.0@, p.1.modelo()))
}

impl View for Runtime {
    type V = EstadoR;

    closed spec fn view(&self) -> EstadoR {
        EstadoR {
            variaveis: escopos_modelo(self.variaveis@),
            funcoes: funcoes_modelo(self.funcoes@),
            saida: self.saida@.map_values(|s: Vec<char>| s@),
        }
    }
}

/// O modelo de um resultado de avaliação.
pub open spec fn resultado_valor(r: Result<NeoValor, NeoErro>) -> Result<ValorModelo, ErroModelo> {
    match r {
        Ok(v) => Ok(v@),
        Err(e) => Err(e@),
    }
}

/// O modelo de um resultado de execução de instrução.
pub open spec fn resultado_retorno(r: Result<Option<NeoValor>, NeoErro>) -> Result<
    Option<ValorModelo>,
    ErroModelo,
> {
    match r {
        Ok(Some(v)) => Ok(Some(v@)),
        Ok(None) => Ok(None),
        Err(e) => Err(e@),
    }
}

/// O modelo de um resultado sem valor.
pub open spec fn resultado_vazio(r: Result<(), NeoErro>) -> Result<(), ErroModelo> {
    match r {
        Ok(_) => Ok(()),
        Err(e) => Err(e@),
    }
}

/// Um resultado bem sucedido traz um valor bem formado.
pub open spec fn valor_ok_wf(r: Result<NeoValor, NeoErro>) -> bool {
    r matches Ok(v) ==> v.wf()
}

/// Um valor retornado é bem formado.
pub open spec fn retorno_ok_wf(r: Result<Option<NeoValor>, NeoErro>) -> bool {
    r matches Ok(Some(v)) ==> v.wf()
}

pub proof fn lema_chaves_escopo(e: Seq<(Vec<char>, NeoValor)>)
    ensures
        chaves(escopo_modelo(e)) == chaves_exec(e),
{
    assert(chaves(escopo_modelo(e)) =~= chaves_exec(e));
}

pub proof fn lema_chaves_funcoes(f: Seq<(Vec<char>, Funcao)>)
    ensures
        chaves(funcoes_modelo(f)) == chaves_exec(f),
{
    assert(chaves(funcoes_modelo(f)) =~= chaves_exec(f));
}

/// Um passo da avaliação dos argumentos, nas posições `i` em diante.
pub proof fn lema_passo_argumentos(
    st: EstadoR,
    params: Seq<Seq<char>>,
    args: Seq<ExprM>,
    escopo: Seq<(Seq<char>, ValorModelo)>,
    i: int,
    linha: nat,
    c: nat,
)
    requires
        0 <= i < args.len(),
        i < params.len(),
    ensures
        avaliar_argumentos(st, params.skip(i), args.skip(i), escopo, linha, c) == ({
            let (s1, r) = avaliar(st, args[i], linha, c);
            match r {
                Err(x) => (s1, Err(x)),
                Ok(v) => avaliar_argumentos(
                    s1,
                    params.skip(i + 1),
                    args.skip(i + 1),
                    inserir(escopo, params[i], v),
                    linha,
                    c,
                ),
            }
        }),
{
    assert(args.skip(i)[0] == args[i]);
    assert(params.skip(i)[0] == params[i]);
    assert(args.skip(i).drop_first() =~= args.skip(i + 1));
    assert(params.skip(i).drop_first() =~= params.skip(i + 1));
}

/// Um passo da execução de uma sequência, na posição `i`.
pub proof fn lema_passo_sequencia(st: EstadoR, m: Seq<InstrM>, i: int, c: nat)
    requires
        0 <= i < m.len(),
    ensures
        executar_sequencia(st, m.skip(i), c) == ({
            let (s1, r) = executar_instrucao(st, m[i], c);
            match r {
                Err(x) => (s1, Err(x)),
                Ok(Some(v)) => (s1, Ok(Some(v))),
                Ok(None) => executar_sequencia(s1, m.skip(i + 1), c),
            }
        }),
{
    assert(m.skip(i)[0] == m[i]);
    assert(m.skip(i).drop_first() =~= m.skip(i + 1));
}

/// Um passo do registro das funções, na posição `i`.
pub proof fn lema_passo_registro(f: Seq<(Seq<char>, FuncaoM)>, m: Seq<InstrM>, i: int)
    requires
        0 <= i < m.len(),
    ensures
        registrar(f, m.skip(i)) == registrar(
            match m[i] {
                InstrM::Funcao { nome, parametros, bloco, .. } => inserir(
                    f,
                    nome,
                    FuncaoM { parametros, bloco },
                ),
                _ => f,
            },
            m.skip(i + 1),
        ),
{
    assert(m.skip(i)[0] == m[i]);
    assert(m.skip(i).drop_first() =~= m.skip(i + 1));
}

/// Um passo da execução do programa, na posição `i`.
pub proof fn lema_passo_topo(st: EstadoR, m: Seq<InstrM>, i: int, c: nat)
    requires
        0 <= i < m.len(),
    ensures
        executar_topo(st, m.skip(i), c) == (if m[i] is Funcao {
            executar_topo(st, m.skip(i + 1), c)
        } else {
            let (s1, r) = executar_instrucao(st, m[i], c);
            match r {
                Err(x) => (s1, Err(x)),
                Ok(_) => executar_topo(s1, m.skip(i + 1), c),
            }
        }),
{
    assert(m.skip(i)[0] == m[i]);
    assert(m.skip(i).drop_first() =~= m.skip(i + 1));
}

// ================================================================
// Mensagens de erro
// ================================================================

fn erro_de_tipo(linha: usize, esperado: Vec<char>, recebido: Vec<char>) -> (r: NeoErro)
    ensures
        r@ == erro_tipo(linha as nat, esperado@, recebido@),
{
    NeoErro::Tipo { linha, esperado, recebido }
}

fn erro_de_execucao(linha: usize, mensagem: Vec<char>) -> (r: NeoErro)
    ensures
        r@ == erro_execucao(linha as nat, mensagem@),
{
    NeoErro::Runtime { linha, mensagem }
}

/// `"{tipo de a}{sep}{tipo de b}"`.
fn tipos_dos_valores(a: &NeoValor, b: &NeoValor, sep: &str) -> (r: Vec<char>)
    ensures
        r@ == tipos_de(a@, b@, sep@),
{
    let mut r = a.tipo().nome_texto();
    anexar_literal(&mut r, sep);
    let t = b.tipo().nome_texto();
    anexar(&mut r, t.as_slice());
    r
}

fn erro_estouro_em(linha: usize) -> (r: NeoErro)
    ensures
        r@ == erro_estouro(linha as nat),
{
    erro_de_execucao(linha, texto_de("Resultado decimal fora do intervalo."))
}

fn mensagem_variavel(nome: &[char]) -> (r: Vec<char>)
    ensures
        r@ == msg_variavel_inexistente(nome@),
{
    let mut r = texto_de("Variável '");
    anexar(&mut r, nome);
    anexar_literal(&mut r, "' não existe.");
    r
}

/// O valor de uma conta decimal: o decimal que `rust_decimal` calculou, ou o
/// erro de estouro quando a conta não coube.
pub fn decimal_ou_estouro(r: Option<Dec>, linha: usize) -> (v: Result<NeoValor, NeoErro>)
    requires
        r matches Some(d) ==> d.wf(),
    ensures
        resultado_valor(v) == crate::semantica::decimal_ou_estouro(
            crate::decimal::opcao_modelo(r),
            linha as nat,
        ),
        valor_ok_wf(v),
{
    match r {
        Some(d) => Ok(NeoValor::Decimal(d)),
        None => Err(erro_estouro_em(linha)),
    }
}

// ================================================================
// Operações sobre valores
// ================================================================

/// `a + b` numa expressão.
pub fn somar_valores_exec(a: NeoValor, b: NeoValor, linha: usize) -> (r: Result<NeoValor, NeoErro>)
    requires
        a.wf(),
        b.wf(),
    ensures
        resultado_valor(r) == somar_valores(a@, b@, linha as nat),
        valor_ok_wf(r),
{
    match (a, b) {
        (NeoValor::Decimal(x), NeoValor::Decimal(y)) => decimal_ou_estouro(somar(x, y), linha),
        (NeoValor::String(x), NeoValor::String(y)) => {
            let mut s = x;
            anexar(&mut s, y.as_slice());
            Ok(NeoValor::String(s))
        },
        (a, b) => {
            let recebido = tipos_dos_valores(&a, &b, " + ");
            Err(erro_de_tipo(linha, texto_de("decimal + decimal ou string + string"), recebido))
        },
    }
}

/// `a - b` ou `a * b` entre decimais; `nome` é o que o erro de tipo diz
/// esperar.
pub fn operacao_decimal(
    a: NeoValor,
    b: NeoValor,
    linha: usize,
    operacao: OperacaoDecimal,
    nome: &str,
) -> (r: Result<NeoValor, NeoErro>)
    requires
        a.wf(),
        b.wf(),
    ensures
        resultado_valor(r) == operar_decimais(a@, b@, linha as nat, operacao, nome@),
        valor_ok_wf(r),
{
    match (a, b) {
        (NeoValor::Decimal(x), NeoValor::Decimal(y)) => match operacao {
            OperacaoDecimal::Subtracao => decimal_ou_estouro(subtrair(x, y), linha),
            OperacaoDecimal::Multiplicacao => decimal_ou_estouro(multiplicar(x, y), linha),
        },
        (a, b) => {
            let recebido = tipos_dos_valores(&a, &b, " e ");
            Err(erro_de_tipo(linha, texto_de(nome), recebido))
        },
    }
}

/// `a - b` ou `a * b` numa atribuição composta (`-=`, `*=`).
pub fn operacao_decimal_valores(
    a: NeoValor,
    b: NeoValor,
    linha: usize,
    operacao: OperacaoDecimal,
) -> (r: Result<NeoValor, NeoErro>)
    requires
        a.wf(),
        b.wf(),
    ensures
        resultado_valor(r) == operar_decimais(
            a@,
            b@,
            linha as nat,
            operacao,
            "decimal e decimal"@,
        ),
        valor_ok_wf(r),
{
    operacao_decimal(a, b, linha, operacao, "decimal e decimal")
}

/// `a / b` numa expressão.
pub fn dividir_valores_exec(a: NeoValor, b: NeoValor, linha: usize) -> (r: Result<
    NeoValor,
    NeoErro,
>)
    requires
        a.wf(),
        b.wf(),
    ensures
        resultado_valor(r) == dividir_valores(a@, b@, linha as nat),
        valor_ok_wf(r),
{
    match (a, b) {
        (NeoValor::Decimal(x), NeoValor::Decimal(y)) => {
            if e_zero(y) {
                return Err(erro_de_execucao(linha, texto_de("Divisão por zero.")));
            }
            decimal_ou_estouro(dividir(x, y), linha)
        },
        (a, b) => {
            let recebido = tipos_dos_valores(&a, &b, " / ");
            Err(erro_de_tipo(linha, texto_de("decimal / decimal"), recebido))
        },
    }
}

/// `a % b` numa expressão.
pub fn resto_valores_exec(a: NeoValor, b: NeoValor, linha: usize) -> (r: Result<NeoValor, NeoErro>)
    requires
        a.wf(),
        b.wf(),
    ensures
        resultado_valor(r) == resto_valores(a@, b@, linha as nat),
        valor_ok_wf(r),
{
    match (a, b) {
        (NeoValor::Decimal(x), NeoValor::Decimal(y)) => {
            if e_zero(y) {
                return Err(erro_de_execucao(linha, texto_de("Módulo por zero.")));
            }
            decimal_ou_estouro(resto(x, y), linha)
        },
        (a, b) => {
            let recebido = tipos_dos_valores(&a, &b, " % ");
            Err(erro_de_tipo(linha, texto_de("decimal % decimal"), recebido))
        },
    }
}

/// `a > b`, `a < b`, `a >= b` ou `a <= b` entre decimais.
pub fn comparar(a: NeoValor, b: NeoValor, linha: usize, operacao: Comparacao) -> (r: Result<
    NeoValor,
    NeoErro,
>)
    requires
        a.wf(),
        b.wf(),
    ensures
        resultado_valor(r) == comparar_valores(a@, b@, linha as nat, operacao),
        valor_ok_wf(r),
{
    match (a, b) {
        (NeoValor::Decimal(x), NeoValor::Decimal(y)) => {
            let v = match operacao {
                Comparacao::Maior => menor(y, x),
                Comparacao::Menor => menor(x, y),
                Comparacao::MaiorIgual => !menor(x, y),
                Comparacao::MenorIgual => !menor(y, x),
            };
            Ok(NeoValor::Boolean(v))
        },
        (a, b) => {
            let recebido = tipos_dos_valores(&a, &b, " e ");
            Err(erro_de_tipo(linha, texto_de("dois valores decimal"), recebido))
        },
    }
}

/// O valor de uma operação binária sobre os valores dos operandos.
fn combinar_valores(e: &Expressao, a: NeoValor, b: NeoValor, linha: usize) -> (r: Result<
    NeoValor,
    NeoErro,
>)
    requires
        a.wf(),
        b.wf(),
    ensures
        resultado_valor(r) == combinar(e.modelo(), a@, b@, linha as nat),
        valor_ok_wf(r),
{
    match e {
        Expressao::Soma(_, _) => somar_valores_exec(a, b, linha),
        Expressao::Subtracao(_, _) => operacao_decimal(
            a,
            b,
            linha,
            OperacaoDecimal::Subtracao,
            "decimal - decimal",
        ),
        Expressao::Multiplicacao(_, _) => operacao_decimal(
            a,
            b,
            linha,
            OperacaoDecimal::Multiplicacao,
            "decimal * decimal",
        ),
        Expressao::Divisao(_, _) => dividir_valores_exec(a, b, linha),
        Expressao::Modulo(_, _) => resto_valores_exec(a, b, linha),
        Expressao::Maior(_, _) => comparar(a, b, linha, Comparacao::Maior),
        Expressao::Menor(_, _) => comparar(a, b, linha, Comparacao::Menor),
        Expressao::MaiorIgual(_, _) => comparar(a, b, linha, Comparacao::MaiorIgual),
        Expressao::MenorIgual(_, _) => comparar(a, b, linha, Comparacao::MenorIgual),
        Expressao::Igual(_, _) => Ok(NeoValor::Boolean(a.igual(&b))),
        _ => Ok(NeoValor::Boolean(!a.igual(&b))),
    }
}

/// O novo valor de uma variável numa atribuição `x op= valor`.
pub fn aplicar_atribuicao_exec(
    antigo: NeoValor,
    novo: NeoValor,
    operador: &OperadorAtribuicao,
    linha: usize,
) -> (r: Result<NeoValor, NeoErro>)
    requires
        antigo.wf(),
        novo.wf(),
    ensures
        resultado_valor(r) == aplicar_atribuicao(antigo@, novo@, *operador, linha as nat),
        valor_ok_wf(r),
{
    match operador {
        OperadorAtribuicao::Igual => {
            if antigo.tipo() != novo.tipo() {
                let esperado = antigo.tipo().nome_texto();
                let recebido = novo.tipo().nome_texto();
                return Err(erro_de_tipo(linha, esperado, recebido));
            }
            Ok(novo)
        },
        OperadorAtribuicao::Mais => match (antigo, novo) {
            (NeoValor::Decimal(a), NeoValor::Decimal(b)) => decimal_ou_estouro(somar(a, b), linha),
            (NeoValor::String(a), NeoValor::String(b)) => {
                let mut s = a;
                anexar(&mut s, b.as_slice());
                Ok(NeoValor::String(s))
            },
            (a, b) => {
                let recebido = tipos_dos_valores(&a, &b, " e ");
                Err(erro_de_tipo(linha, texto_de("tipos iguais compatíveis com +="), recebido))
            },
        },
        OperadorAtribuicao::Menos => operacao_decimal_valores(
            antigo,
            novo,
            linha,
            OperacaoDecimal::Subtracao,
        ),
        OperadorAtribuicao::Multiplica => operacao_decimal_valores(
            antigo,
            novo,
            linha,
            OperacaoDecimal::Multiplicacao,
        ),
        OperadorAtribuicao::Divide => match (antigo, novo) {
            (NeoValor::Decimal(a), NeoValor::Decimal(b)) => {
                if e_zero(b) {
                    return Err(erro_de_execucao(linha, texto_de("Divisão por zero.")));
                }
                decimal_ou_estouro(dividir(a, b), linha)
            },
            (a, b) => {
                let recebido = tipos_dos_valores(&a, &b, " e ");
                Err(erro_de_tipo(linha, texto_de("decimal /= decimal"), recebido))
            },
        },
        OperadorAtribuicao::Modulo => match (antigo, novo) {
            (NeoValor::Decimal(a), NeoValor::Decimal(b)) => {
                if e_zero(b) {
                    return Err(erro_de_execucao(linha, texto_de("Módulo por zero.")));
                }
                decimal_ou_estouro(resto(a, b), linha)
            },
            (a, b) => {
                let recebido = tipos_dos_valores(&a, &b, " e ");
                Err(erro_de_tipo(linha, texto_de("decimal %= decimal"), recebido))
            },
        },
    }
}

// ================================================================
// Escopos
// ================================================================

/// Associa `v` a `nome` num escopo (troca o valor ou acrescenta o par).
fn inserir_no_escopo(escopo: &mut Vec<(Vec<char>, NeoValor)>, nome: &[char], v: NeoValor)
    requires
        v.wf(),
        forall|j: int| 0 <= j < old(escopo)@.len() ==> (#[trigger] old(escopo)@[j]).1.wf(),
    ensures
        escopo_modelo(final(escopo)@) == inserir(escopo_modelo(old(escopo)@), nome@, v@),
        forall|j: int| 0 <= j < final(escopo)@.len() ==> (#[trigger] final(escopo)@[j]).1.wf(),
{
    proof {
        lema_chaves_escopo(escopo@);
    }
    let chave = copiar(nome);
    match procurar(escopo, nome) {
        Some(p) => {
            escopo.set(p, (chave, v));
            assert(escopo_modelo(escopo@) =~= escopo_modelo(old(escopo)@).update(
                p as int,
                (nome@, v@),
            ));
        },
        None => {
            escopo.push((chave, v));
            assert(escopo_modelo(escopo@) =~= escopo_modelo(old(escopo)@).push((nome@, v@)));
        },
    }
}

impl Runtime {
    /// O estado é bem formado (ver `estado_wf`).
    pub closed spec fn wf(&self) -> bool {
        &&& estado_wf(self@)
        &&& forall|i: int, j: int|
            0 <= i < self.variaveis@.len() && 0 <= j < self.variaveis@[i]@.len() ==> (
            #[trigger] self.variaveis@[i]@[j]).1.wf()
    }

    /// Um contexto novo: só o escopo global, vazio, e nenhuma função.
    pub fn novo() -> (r: Runtime)
        ensures
            r@ == (EstadoR {
                variaveis: seq![Seq::empty()],
                funcoes: Seq::empty(),
                saida: Seq::empty(),
            }),
            r.wf(),
    {
        let mut variaveis: Vec<Vec<(Vec<char>, NeoValor)>> = Vec::new();
        variaveis.push(Vec::new());
        let r = Runtime { variaveis, funcoes: Vec::new(), saida: Vec::new() };
        assert(escopo_modelo(r.variaveis@[0]@) =~= Seq::empty());
        assert(r@.variaveis =~= seq![Seq::<(Seq<char>, ValorModelo)>::empty()]);
        assert(r@.funcoes =~= Seq::empty());
        assert(r@.saida =~= Seq::empty());
        r
    }

    /// As linhas escritas por `display`, em ordem.
    pub fn saida(&self) -> (r: &Vec<Vec<char>>)
        ensures
            r@.map_values(|s: Vec<char>| s@) == self@.saida,
    {
        &self.saida
    }

    /// Empilha um escopo.
    fn empilhar_escopo(&mut self, escopo: Vec<(Vec<char>, NeoValor)>)
        requires
            old(self).wf(),
            forall|j: int| 0 <= j < escopo@.len() ==> (#[trigger] escopo@[j]).1.wf(),
        ensures
            final(self)@ == empilhar(old(self)@, escopo_modelo(escopo@)),
            final(self).wf(),
    {
        let ghost e = escopo@;
        self.variaveis.push(escopo);
        assert(self@.variaveis =~= old(self)@.variaveis.push(escopo_modelo(e)));
        assert(self@ == empilhar(old(self)@, escopo_modelo(e)));
        assert forall|i: int, j: int|
            0 <= i < self@.variaveis.len() && 0 <= j < self@.variaveis[i].len() implies valor_wf(
            #[trigger] self@.variaveis[i][j].1,
        ) by {
            if i < old(self)@.variaveis.len() {
                assert(self@.variaveis[i] == old(self)@.variaveis[i]);
            } else {
                assert(self.variaveis@[i]@[j].1.wf());
            }
        }
    }

    /// Desempilha o escopo mais interno.
    fn desempilhar_escopo(&mut self)
        requires
            old(self).wf(),
            old(self)@.variaveis.len() >= 2,
        ensures
            final(self)@ == desempilhar(old(self)@),
            final(self).wf(),
    {
        self.variaveis.pop();
        assert(self@.variaveis =~= old(self)@.variaveis.drop_last());
        assert(self@ == desempilhar(old(self)@));
        assert forall|i: int, j: int|
            0 <= i < self@.variaveis.len() && 0 <= j < self@.variaveis[i].len() implies valor_wf(
            #[trigger] self@.variaveis[i][j].1,
        ) by {
            assert(self@.variaveis[i] == old(self)@.variaveis[i]);
        }
    }

    /// Declara `nome` com o valor `v` no escopo mais interno.
    fn declarar_variavel(&mut self, nome: &[char], v: NeoValor)
        requires
            old(self).wf(),
            v.wf(),
        ensures
            final(self)@ == declarar(old(self)@, nome@, v@),
            final(self).wf(),
            final(self)@.variaveis.len() == old(self)@.variaveis.len(),
    {
        let i = self.variaveis.len() - 1;
        let ghost antes = self.variaveis@[i as int]@;
        inserir_no_escopo(&mut self.variaveis[i], nome, v);
        proof {
            let novo = inserir(escopo_modelo(antes), nome@, v@);
            assert(self@.variaveis =~= old(self)@.variaveis.update(i as int, novo));
            assert(self@ == declarar(old(self)@, nome@, v@));
            assert forall|a: int, b: int|
                0 <= a < self.variaveis@.len() && 0 <= b < self.variaveis@[a]@.len() implies (
                #[trigger] self.variaveis@[a]@[b]).1.wf() by {
                if a != i {
                    assert(self.variaveis@[a] == old(self).variaveis@[a]);
                }
            }
            assert forall|a: int, b: int|
                0 <= a < self@.variaveis.len() && 0 <= b < self@.variaveis[a].len()
                    implies valor_wf(#[trigger] self@.variaveis[a][b].1) by {
                assert(self.variaveis@[a]@[b].1.wf());
            }
        }
    }

    /// O índice do escopo mais interno que tem a variável `nome`.
    pub fn encontrar_escopo(&self, nome: &[char]) -> (r: Option<usize>)
        ensures
            match r {
                Some(i) => i < self@.variaveis.len() && escopo_de(self@.variaveis, nome@) == Some(
                    i as int,
                ),
                None => escopo_de(self@.variaveis, nome@) is None,
            },
    {
        let n = self.variaveis.len();
        let mut i: usize = n;
        while i > 0
            invariant
                i <= n,
                n == self@.variaveis.len(),
                forall|j: int| i <= j < n ==> !tem_chave(#[trigger] self@.variaveis[j], nome@),
            decreases i,
        {
            i = i - 1;
            proof {
                lema_chaves_escopo(self.variaveis@[i as int]@);
            }
            match procurar(&self.variaveis[i], nome) {
                Some(_) => {
                    proof {
                        lema_escopo_de(self@.variaveis, nome@, i as int);
                    }
                    return Some(i);
                },
                None => {},
            }
        }
        None
    }

    /// O valor da variável `nome` no escopo mais interno que a tem.
    fn valor_da_variavel(&self, nome: &[char]) -> (r: Option<NeoValor>)
        requires
            self.wf(),
        ensures
            match r {
                Some(v) => buscar(self@.variaveis, nome@) == Some(v@) && v.wf(),
                None => buscar(self@.variaveis, nome@) is None,
            },
    {
        match self.encontrar_escopo(nome) {
            None => None,
            Some(i) => {
                proof {
                    lema_chaves_escopo(self.variaveis@[i as int]@);
                }
                match procurar(&self.variaveis[i], nome) {
                    Some(p) => Some(self.variaveis[i][p].1.copiar()),
                    None => None,
                }
            },
        }
    }

    /// Troca `{nome}` pelo texto do valor de cada variável visível, do escopo
    /// global ao mais interno.
    pub fn interpolar(&self, texto: &[char]) -> (r: Vec<char>)
        requires
            self.wf(),
        ensures
            r@ == interpolar(self@.variaveis, texto@),
    {
        let mut r = copiar(texto);
        let n = self.variaveis.len();
        let mut i: usize = 0;
        let ghost vars = self@.variaveis;
        assert(vars.skip(0) == vars);
        while i < n
            invariant
                n == vars.len(),
                vars == self@.variaveis,
                self.wf(),
                i <= n,
                interpolar(vars, texto@) == interpolar(vars.skip(i as int), r@),
            decreases n - i,
        {
            let escopo = &self.variaveis[i];
            let ghost esc = vars[i as int];
            assert(esc == escopo_modelo(escopo@));
            let ghost t0 = r@;
            let m = escopo.len();
            let mut j: usize = 0;
            assert(esc.skip(0) == esc);
            while j < m
                invariant
                    m == esc.len(),
                    esc == escopo_modelo(escopo@),
                    forall|b: int| 0 <= b < escopo@.len() ==> (#[trigger] escopo@[b]).1.wf(),
                    j <= m,
                    interpolar_escopo(esc, t0) == interpolar_escopo(esc.skip(j as int), r@),
                decreases m - j,
            {
                let mut marc: Vec<char> = Vec::new();
                marc.push('{');
                anexar(&mut marc, escopo[j].0.as_slice());
                marc.push('}');
                assert(marc@ =~= marcador(esc[j as int].0));
                let valor_texto = escopo[j].1.texto();
                let ghost antes = r@;
                r = substituir(r.as_slice(), marc.as_slice(), valor_texto.as_slice());
                assert(esc.skip(j as int).drop_first() =~= esc.skip(j + 1));
                j = j + 1;
            }
            assert(esc.skip(m as int) =~= Seq::<(Seq<char>, ValorModelo)>::empty());
            assert(vars.skip(i as int).drop_first() =~= vars.skip(i + 1));
            i = i + 1;
        }
        assert(vars.skip(n as int) =~= Seq::<Seq<(Seq<char>, ValorModelo)>>::empty());
        r
    }
}

impl Runtime {
    /// Troca o valor da variável na posição `p` do escopo `k`.
    fn atribuir_em(&mut self, k: usize, p: usize, nome: &[char], v: NeoValor)
        requires
            old(self).wf(),
            v.wf(),
            k < old(self)@.variaveis.len(),
            p < old(self)@.variaveis[k as int].len(),
        ensures
            final(self)@ == (EstadoR {
                variaveis: old(self)@.variaveis.update(
                    k as int,
                    old(self)@.variaveis[k as int].update(p as int, (nome@, v@)),
                ),
                ..old(self)@
            }),
            final(self).wf(),
    {
        let chave = copiar(nome);
        let ghost antes = self.variaveis@[k as int]@;
        self.variaveis[k].set(p, (chave, v));
        proof {
            assert(escopo_modelo(self.variaveis@[k as int]@) =~= escopo_modelo(antes).update(
                p as int,
                (nome@, v@),
            ));
            assert(self@.variaveis =~= old(self)@.variaveis.update(
                k as int,
                old(self)@.variaveis[k as int].update(p as int, (nome@, v@)),
            ));
            assert forall|a: int, b: int|
                0 <= a < self.variaveis@.len() && 0 <= b < self.variaveis@[a]@.len() implies (
                #[trigger] self.variaveis@[a]@[b]).1.wf() by {
                if a != k {
                    assert(self.variaveis@[a] == old(self).variaveis@[a]);
                } else if b != p {
                    assert(self.variaveis@[a]@[b] == antes[b]);
                }
            }
            assert forall|a: int, b: int|
                0 <= a < self@.variaveis.len() && 0 <= b < self@.variaveis[a].len()
                    implies valor_wf(#[trigger] self@.variaveis[a][b].1) by {
                assert(self.variaveis@[a]@[b].1.wf());
            }
        }
    }

    /// Avalia uma expressão booleana (`and`, `or`, `not`).
    fn obter_booleano<F: Fn(Vec<char>)>(&mut self, escrever: &F, expressao: &Expressao, linha: usize, c: u64) -> (r: Result<
        bool,
        NeoErro,
    >)
        requires
            forall|l: Vec<char>| escrever.requires((l,)),
            old(self).wf(),
            expr_wf(expressao.modelo()),
        ensures
            final(self).wf(),
            ({
                let (s1, r1) = avaliar(old(self)@, expressao.modelo(), linha as nat, c as nat);
                &&& final(self)@ == s1
                &&& match r1 {
                    Err(x) => r matches Err(e) && e@ == x,
                    Ok(v) => match booleano(v, linha as nat) {
                        Err(x) => r matches Err(e) && e@ == x,
                        Ok(b) => r == Ok::<bool, NeoErro>(b),
                    },
                }
            }),
            r is Ok ==> final(self)@.variaveis.len() == old(self)@.variaveis.len(),
        decreases c, tam_expr(expressao.modelo()), 1nat,
    {
        match self.avaliar(escrever, expressao, linha, c)? {
            NeoValor::Boolean(v) => Ok(v),
            outro => Err(erro_de_tipo(linha, texto_de("boolean"), outro.tipo().nome_texto())),
        }
    }

    /// Avalia uma expressão.
    pub fn avaliar<F: Fn(Vec<char>)>(&mut self, escrever: &F, expressao: &Expressao, linha: usize, c: u64) -> (r: Result<
        NeoValor,
        NeoErro,
    >)
        requires
            forall|l: Vec<char>| escrever.requires((l,)),
            old(self).wf(),
            expr_wf(expressao.modelo()),
        ensures
            final(self).wf(),
            valor_ok_wf(r),
            (final(self)@, resultado_valor(r)) == avaliar(
                old(self)@,
                expressao.modelo(),
                linha as nat,
                c as nat,
            ),
            r is Ok ==> final(self)@.variaveis.len() == old(self)@.variaveis.len(),
        decreases c, tam_expr(expressao.modelo()), 0nat,
    {
        match expressao {
            Expressao::Decimal(v) => Ok(NeoValor::Decimal(*v)),
            Expressao::String(v) => Ok(NeoValor::String(copiar(v.as_slice()))),
            Expressao::Boolean(v) => Ok(NeoValor::Boolean(*v)),
            Expressao::Variavel(nome) => match self.valor_da_variavel(nome.as_slice()) {
                Some(v) => Ok(v),
                None => Err(erro_de_execucao(linha, mensagem_variavel(nome.as_slice()))),
            },
            Expressao::Negativo(valor) => match self.avaliar(escrever, valor, linha, c)? {
                NeoValor::Decimal(v) => Ok(NeoValor::Decimal(negar(v))),
                outro => Err(erro_de_tipo(linha, texto_de("decimal"), outro.tipo().nome_texto())),
            },
            Expressao::And(a, b) => {
                let esquerda = self.obter_booleano(escrever, a, linha, c)?;
                if !esquerda {
                    return Ok(NeoValor::Boolean(false));
                }
                let direita = self.obter_booleano(escrever, b, linha, c)?;
                Ok(NeoValor::Boolean(esquerda && direita))
            },
            Expressao::Or(a, b) => {
                let esquerda = self.obter_booleano(escrever, a, linha, c)?;
                if esquerda {
                    return Ok(NeoValor::Boolean(true));
                }
                let direita = self.obter_booleano(escrever, b, linha, c)?;
                Ok(NeoValor::Boolean(esquerda || direita))
            },
            Expressao::Not(a) => {
                let valor = self.obter_booleano(escrever, a, linha, c)?;
                Ok(NeoValor::Boolean(!valor))
            },
            Expressao::Chamada { nome, argumentos } => {
                proof {
                    lema_exprs_wf(modelos_expr(argumentos@));
                }
                self.chamar_funcao(escrever, nome, argumentos, linha, c)
            },
            Expressao::Soma(a, b)
            | Expressao::Subtracao(a, b)
            | Expressao::Multiplicacao(a, b)
            | Expressao::Divisao(a, b)
            | Expressao::Modulo(a, b)
            | Expressao::Maior(a, b)
            | Expressao::Menor(a, b)
            | Expressao::MaiorIgual(a, b)
            | Expressao::MenorIgual(a, b)
            | Expressao::Igual(a, b)
            | Expressao::Diferente(a, b) => {
                let va = self.avaliar(escrever, a, linha, c)?;
                let vb = self.avaliar(escrever, b, linha, c)?;
                combinar_valores(expressao, va, vb, linha)
            },
        }
    }

    /// Chama a função `nome`: avalia os argumentos, executa o corpo num escopo
    /// com os parâmetros e devolve o valor retornado (ou `vazio`).
    #[verifier::rlimit(40)]
    fn chamar_funcao<F: Fn(Vec<char>)>(
        &mut self,
        escrever: &F,
        nome: &Vec<char>,
        argumentos: &Vec<Expressao>,
        linha: usize,
        c: u64,
    ) -> (r: Result<NeoValor, NeoErro>)
        requires
            forall|l: Vec<char>| escrever.requires((l,)),
            old(self).wf(),
            exprs_wf(modelos_expr(argumentos@)),
        ensures
            final(self).wf(),
            valor_ok_wf(r),
            (final(self)@, resultado_valor(r)) == avaliar(
                old(self)@,
                ExprM::Chamada { nome: nome@, argumentos: modelos_expr(argumentos@) },
                linha as nat,
                c as nat,
            ),
            r is Ok ==> final(self)@.variaveis.len() == old(self)@.variaveis.len(),
        decreases c, tam_exprs(modelos_expr(argumentos@)), 1nat,
    {
        let ghost st0 = self@;
        let ghost args = modelos_expr(argumentos@);
        proof {
            lema_chaves_funcoes(self.funcoes@);
            lema_modelos_expr(argumentos@);
            lema_exprs_wf(args);
        }
        let k = match procurar(&self.funcoes, nome.as_slice()) {
            None => {
                let mut m = texto_de("Função '");
                anexar(&mut m, nome.as_slice());
                anexar_literal(&mut m, "' não existe.");
                return Err(erro_de_execucao(linha, m));
            },
            Some(k) => k,
        };
        let parametros = copiar_nomes(&self.funcoes[k].1.parametros);
        let bloco = copiar_bloco(&self.funcoes[k].1.bloco);
        let ghost f = st0.funcoes[k as int].1;
        assert(f == self.funcoes@[k as int].1.modelo());
        assert(modelos_nomes(parametros@).len() == parametros@.len());
        if argumentos.len() != parametros.len() {
            let mut m = texto_de("Função '");
            anexar(&mut m, nome.as_slice());
            anexar_literal(&mut m, "' espera ");
            anexar(&mut m, numero_texto(parametros.len()).as_slice());
            anexar_literal(&mut m, " argumento(s), mas recebeu ");
            anexar(&mut m, numero_texto(argumentos.len()).as_slice());
            anexar_literal(&mut m, ".");
            return Err(erro_de_execucao(linha, m));
        }
        if c == 0 {
            return Err(erro_de_execucao(linha, texto_de("Limite de execução atingido.")));
        }
        proof {
            lema_exprs_wf(args);
        }
        assert(args.skip(0) == args);
        assert(modelos_nomes(parametros@).skip(0) == modelos_nomes(parametros@));
        let vazio: Vec<(Vec<char>, NeoValor)> = Vec::new();
        assert(escopo_modelo(vazio@) =~= Seq::empty());
        assert(valor_de(st0.funcoes, nome@) == Some(f));
        let escopo = self.avaliar_argumentos(escrever, &parametros, argumentos, 0, vazio, linha, c)?;
        self.empilhar_escopo(escopo);
        proof {
            lema_instrs_wf(modelos_instr(bloco@));
        }
        let resultado = self.executar_bloco_funcao(escrever, &bloco, c - 1)?;
        self.desempilhar_escopo();
        match resultado {
            Some(v) => Ok(v),
            None => Ok(NeoValor::Vazio),
        }
    }

    /// Avalia os argumentos de uma chamada, da posição `i` em diante, e
    /// acrescenta cada valor ao escopo dos parâmetros.
    fn avaliar_argumentos<F: Fn(Vec<char>)>(
        &mut self,
        escrever: &F,
        parametros: &Vec<Vec<char>>,
        argumentos: &Vec<Expressao>,
        i: usize,
        escopo: Vec<(Vec<char>, NeoValor)>,
        linha: usize,
        c: u64,
    ) -> (r: Result<Vec<(Vec<char>, NeoValor)>, NeoErro>)
        requires
            forall|l: Vec<char>| escrever.requires((l,)),
            old(self).wf(),
            exprs_wf(modelos_expr(argumentos@)),
            parametros@.len() == argumentos@.len(),
            i <= argumentos@.len(),
            forall|j: int| 0 <= j < escopo@.len() ==> (#[trigger] escopo@[j]).1.wf(),
        ensures
            final(self).wf(),
            r matches Ok(e) ==> forall|j: int| 0 <= j < e@.len() ==> (#[trigger] e@[j]).1.wf(),
            ({
                let (s1, r1) = avaliar_argumentos(
                    old(self)@,
                    modelos_nomes(parametros@).skip(i as int),
                    modelos_expr(argumentos@).skip(i as int),
                    escopo_modelo(escopo@),
                    linha as nat,
                    c as nat,
                );
                &&& final(self)@ == s1
                &&& match r1 {
                    Err(x) => r matches Err(e) && e@ == x,
                    Ok(esc) => r matches Ok(e) && escopo_modelo(e@) == esc,
                }
            }),
            r is Ok ==> final(self)@.variaveis.len() == old(self)@.variaveis.len(),
        decreases c, tam_exprs(modelos_expr(argumentos@).skip(i as int)), 0nat,
    {
        let ghost args = modelos_expr(argumentos@);
        let ghost params = modelos_nomes(parametros@);
        proof {
            lema_modelos_expr(argumentos@);
            lema_exprs_wf(args);
        }
        if i == argumentos.len() {
            assert(args.skip(i as int) =~= Seq::<ExprM>::empty());
            return Ok(escopo);
        }
        proof {
            lema_passo_argumentos(
                self@,
                params,
                args,
                escopo_modelo(escopo@),
                i as int,
                linha as nat,
                c as nat,
            );
            assert(params[i as int] == parametros@[i as int]@);
            assert(args[i as int] == argumentos@[i as int].modelo());
            assert(args.skip(i as int)[0] == args[i as int]);
            assert(args.skip(i as int).drop_first() =~= args.skip(i + 1));
        }
        let v = self.avaliar(escrever, &argumentos[i], linha, c)?;
        let mut escopo = escopo;
        inserir_no_escopo(&mut escopo, parametros[i].as_slice(), v);
        self.avaliar_argumentos(escrever, parametros, argumentos, i + 1, escopo, linha, c)
    }

    /// Executa as instruções de um corpo em ordem, até a primeira que retorna.
    #[verifier::rlimit(40)]
    fn executar_bloco_funcao<F: Fn(Vec<char>)>(&mut self, escrever: &F, bloco: &Vec<Instrucao>, c: u64) -> (r: Result<
        Option<NeoValor>,
        NeoErro,
    >)
        requires
            forall|l: Vec<char>| escrever.requires((l,)),
            old(self).wf(),
            instrs_wf(modelos_instr(bloco@)),
        ensures
            final(self).wf(),
            retorno_ok_wf(r),
            (final(self)@, resultado_retorno(r)) == executar_sequencia(
                old(self)@,
                modelos_instr(bloco@),
                c as nat,
            ),
            r is Ok ==> final(self)@.variaveis.len() == old(self)@.variaveis.len(),
        decreases c, tam_instrs(modelos_instr(bloco@)), 0nat,
    {
        let ghost st0 = self@;
        let ghost m = modelos_instr(bloco@);
        proof {
            lema_modelos_instr(bloco@);
            lema_instrs_wf(m);
        }
        let n = bloco.len();
        let mut i: usize = 0;
        assert(m.skip(0) == m);
        while i < n
            invariant
                forall|l: Vec<char>| escrever.requires((l,)),
                st0 == old(self)@,
                n == bloco@.len(),
                m == modelos_instr(bloco@),
                m.len() == n,
                forall|j: int| 0 <= j < n ==> #[trigger] m[j] == bloco@[j].modelo(),
                forall|j: int| 0 <= j < n ==> instr_wf(#[trigger] m[j]),
                i <= n,
                self.wf(),
                self@.variaveis.len() == st0.variaveis.len(),
                executar_sequencia(st0, m, c as nat) == executar_sequencia(
                    self@,
                    m.skip(i as int),
                    c as nat,
                ),
            decreases n - i,
        {
            proof {
                lema_tam_instrs(m, i as int);
                lema_passo_sequencia(self@, m, i as int, c as nat);
            }
            if let Some(valor) = self.executar_instrucao(escrever, &bloco[i], c)? {
                return Ok(Some(valor));
            }
            i = i + 1;
        }
        assert(m.skip(n as int) =~= Seq::<InstrM>::empty());
        Ok(None)
    }

    /// Executa um bloco num escopo novo.
    fn executar_bloco<F: Fn(Vec<char>)>(&mut self, escrever: &F, bloco: &Vec<Instrucao>, c: u64) -> (r: Result<
        Option<NeoValor>,
        NeoErro,
    >)
        requires
            forall|l: Vec<char>| escrever.requires((l,)),
            old(self).wf(),
            instrs_wf(modelos_instr(bloco@)),
        ensures
            final(self).wf(),
            retorno_ok_wf(r),
            (final(self)@, resultado_retorno(r)) == executar_bloco(
                old(self)@,
                modelos_instr(bloco@),
                c as nat,
            ),
            r is Ok ==> final(self)@.variaveis.len() == old(self)@.variaveis.len(),
        decreases c, tam_instrs(modelos_instr(bloco@)), 1nat,
    {
        let vazio: Vec<(Vec<char>, NeoValor)> = Vec::new();
        assert(escopo_modelo(vazio@) =~= Seq::empty());
        self.empilhar_escopo(vazio);
        let resultado = self.executar_bloco_funcao(escrever, bloco, c)?;
        self.desempilhar_escopo();
        Ok(resultado)
    }

    /// As voltas de um `while`.
    fn repetir<F: Fn(Vec<char>)>(&mut self, escrever: &F, condicao: &Expressao, bloco: &Vec<Instrucao>, linha: usize, c: u64) -> (r:
        Result<Option<NeoValor>, NeoErro>)
        requires
            forall|l: Vec<char>| escrever.requires((l,)),
            old(self).wf(),
            expr_wf(condicao.modelo()),
            instrs_wf(modelos_instr(bloco@)),
        ensures
            final(self).wf(),
            retorno_ok_wf(r),
            (final(self)@, resultado_retorno(r)) == repetir(
                old(self)@,
                condicao.modelo(),
                modelos_instr(bloco@),
                linha as nat,
                c as nat,
            ),
            r is Ok ==> final(self)@.variaveis.len() == old(self)@.variaveis.len(),
        decreases c, tam_instrs(modelos_instr(bloco@)), 1nat,
    {
        let ghost st0 = self@;
        let mut k: u64 = c;
        loop
            invariant
                forall|l: Vec<char>| escrever.requires((l,)),
                st0 == old(self)@,
                k <= c,
                self.wf(),
                expr_wf(condicao.modelo()),
                instrs_wf(modelos_instr(bloco@)),
                self@.variaveis.len() == st0.variaveis.len(),
                repetir(st0, condicao.modelo(), modelos_instr(bloco@), linha as nat, c as nat)
                    == repetir(
                    self@,
                    condicao.modelo(),
                    modelos_instr(bloco@),
                    linha as nat,
                    k as nat,
                ),
            decreases k,
        {
            if k == 0 {
                return Err(erro_de_execucao(linha, texto_de("Limite de execução atingido.")));
            }
            let resultado = self.avaliar(escrever, condicao, linha, k - 1)?;
            match resultado {
                NeoValor::Boolean(true) => {
                    if let Some(valor) = self.executar_bloco(escrever, bloco, k - 1)? {
                        return Ok(Some(valor));
                    }
                },
                NeoValor::Boolean(false) => {
                    return Ok(None);
                },
                outro => {
                    return Err(
                        erro_de_tipo(linha, texto_de("boolean"), outro.tipo().nome_texto()),
                    );
                },
            }
            k = k - 1;
        }
    }

    /// Executa uma instrução; devolve o valor de um `return`, se houve.
    pub fn executar_instrucao<F: Fn(Vec<char>)>(&mut self, escrever: &F, instrucao: &Instrucao, c: u64) -> (r: Result<
        Option<NeoValor>,
        NeoErro,
    >)
        requires
            forall|l: Vec<char>| escrever.requires((l,)),
            old(self).wf(),
            instr_wf(instrucao.modelo()),
        ensures
            final(self).wf(),
            retorno_ok_wf(r),
            (final(self)@, resultado_retorno(r)) == executar_instrucao(
                old(self)@,
                instrucao.modelo(),
                c as nat,
            ),
            r is Ok ==> final(self)@.variaveis.len() == old(self)@.variaveis.len(),
        decreases c, tam_instr(instrucao.modelo()), 0nat,
    {
        match instrucao {
            Instrucao::Declarar { nome, valor, .. } => {
                let resultado = self.avaliar(escrever, valor, 0, c)?;
                self.declarar_variavel(nome.as_slice(), resultado);
                Ok(None)
            },
            Instrucao::Atribuir { nome, operador, valor, linha } => {
                let novo = self.avaliar(escrever, valor, *linha, c)?;
                let k = match self.encontrar_escopo(nome.as_slice()) {
                    None => {
                        return Err(erro_de_execucao(*linha, mensagem_variavel(nome.as_slice())));
                    },
                    Some(k) => k,
                };
                proof {
                    lema_chaves_escopo(self.variaveis@[k as int]@);
                }
                let p = match procurar(&self.variaveis[k], nome.as_slice()) {
                    None => {
                        return Ok(None);
                    },
                    Some(p) => p,
                };
                let antigo = self.variaveis[k][p].1.copiar();
                let resultado = aplicar_atribuicao_exec(antigo, novo, operador, *linha)?;
                self.atribuir_em(k, p, nome.as_slice(), resultado);
                Ok(None)
            },
            Instrucao::Display { valor, linha } => {
                let resultado = self.avaliar(escrever, valor, *linha, c)?;
                let texto = resultado.texto();
                let linha_escrita = self.interpolar(texto.as_slice());
                let ghost antes = self@;
                escrever(copiar(linha_escrita.as_slice()));
                self.saida.push(linha_escrita);
                assert(self@.saida =~= antes.saida.push(linha_escrita@));
                assert(self@.variaveis == antes.variaveis);
                Ok(None)
            },
            Instrucao::If { condicao, verdadeiro, falso, linha } => {
                let resultado = self.avaliar(escrever, condicao, *linha, c)?;
                match resultado {
                    NeoValor::Boolean(true) => self.executar_bloco(escrever, verdadeiro, c),
                    NeoValor::Boolean(false) => self.executar_bloco(escrever, falso, c),
                    outro => Err(
                        erro_de_tipo(*linha, texto_de("boolean"), outro.tipo().nome_texto()),
                    ),
                }
            },
            Instrucao::While { condicao, bloco, linha } => self.repetir(escrever, condicao, bloco, *linha, c),
            Instrucao::Funcao { .. } => Ok(None),
            Instrucao::Return { valor, linha } => {
                let resultado = self.avaliar(escrever, valor, *linha, c)?;
                Ok(Some(resultado))
            },
        }
    }
}

impl Runtime {
    /// Registra (ou substitui) a função `nome`.
    fn registrar_funcao(&mut self, nome: &[char], f: Funcao)
        requires
            old(self).wf(),
            instrs_wf(f.modelo().bloco),
        ensures
            final(self)@ == (EstadoR {
                funcoes: inserir(old(self)@.funcoes, nome@, f.modelo()),
                ..old(self)@
            }),
            final(self).wf(),
    {
        proof {
            lema_chaves_funcoes(self.funcoes@);
        }
        let ghost fm = f.modelo();
        let chave = copiar(nome);
        match procurar(&self.funcoes, nome) {
            Some(p) => {
                self.funcoes.set(p, (chave, f));
                assert(self@.funcoes =~= old(self)@.funcoes.update(p as int, (nome@, fm)));
            },
            None => {
                self.funcoes.push((chave, f));
                assert(self@.funcoes =~= old(self)@.funcoes.push((nome@, fm)));
            },
        }
        assert(self@.variaveis == old(self)@.variaveis);
        assert forall|k: int| 0 <= k < self@.funcoes.len() implies instrs_wf(
            #[trigger] self@.funcoes[k].1.bloco,
        ) by {
            if k < old(self)@.funcoes.len() && self@.funcoes[k] == old(self)@.funcoes[k] {
            }
        }
    }

    /// Executa um programa: registra as funções declaradas e executa, em
    /// ordem, as demais instruções. Cada linha de `display` é guardada na
    /// saída e entregue a `escrever` no momento em que é escrita.
    pub fn executar<F: Fn(Vec<char>)>(
        &mut self,
        escrever: &F,
        programa: &[Instrucao],
    ) -> (r: Result<(), NeoErro>)
        requires
            forall|l: Vec<char>| escrever.requires((l,)),
            old(self).wf(),
            instrs_wf(modelos_instr(programa@)),
        ensures
            final(self).wf(),
            (final(self)@, resultado_vazio(r)) == executar_programa(
                old(self)@,
                modelos_instr(programa@),
            ),
    {
        let ghost m = modelos_instr(programa@);
        proof {
            lema_modelos_instr(programa@);
            lema_instrs_wf(m);
        }
        let n = programa.len();
        let mut i: usize = 0;
        assert(m.skip(0) == m);
        while i < n
            invariant
                forall|l: Vec<char>| escrever.requires((l,)),
                n == programa@.len(),
                m == modelos_instr(programa@),
                m.len() == n,
                forall|j: int| 0 <= j < n ==> #[trigger] m[j] == programa@[j].modelo(),
                forall|j: int| 0 <= j < n ==> instr_wf(#[trigger] m[j]),
                i <= n,
                self.wf(),
                self@.variaveis == old(self)@.variaveis,
                self@.saida == old(self)@.saida,
                registrar(old(self)@.funcoes, m) == registrar(self@.funcoes, m.skip(i as int)),
            decreases n - i,
        {
            proof {
                lema_passo_registro(self@.funcoes, m, i as int);
            }
            match &programa[i] {
                Instrucao::Funcao { nome, parametros, bloco, .. } => {
                    let f = Funcao { parametros: copiar_nomes(parametros), bloco: copiar_bloco(bloco) };
                    self.registrar_funcao(nome.as_slice(), f);
                },
                _ => {},
            }
            i = i + 1;
        }
        assert(m.skip(n as int) =~= Seq::<InstrM>::empty());
        let ghost st1 = self@;
        assert(st1 == (EstadoR { funcoes: registrar(old(self)@.funcoes, m), ..old(self)@ }));
        let c: u64 = 0xFFFF_FFFF_FFFF_FFFF;
        let mut i: usize = 0;
        while i < n
            invariant
                forall|l: Vec<char>| escrever.requires((l,)),
                n == programa@.len(),
                m == modelos_instr(programa@),
                m.len() == n,
                forall|j: int| 0 <= j < n ==> #[trigger] m[j] == programa@[j].modelo(),
                forall|j: int| 0 <= j < n ==> instr_wf(#[trigger] m[j]),
                i <= n,
                self.wf(),
                c as nat == combustivel_inicial(),
                st1 == (EstadoR { funcoes: registrar(old(self)@.funcoes, m), ..old(self)@ }),
                executar_topo(st1, m, c as nat) == executar_topo(self@, m.skip(i as int), c as nat),
            decreases n - i,
        {
            proof {
                lema_passo_topo(self@, m, i as int, c as nat);
            }
            match &programa[i] {
                Instrucao::Funcao { .. } => {},
                instrucao => {
                    self.executar_instrucao(escrever, instrucao, c)?;
                },
            }
            i = i + 1;
        }
        assert(m.skip(n as int) =~= Seq::<InstrM>::empty());
        Ok(())
    }
}

} // verus!
