//! A árvore sintática de um programa e o seu modelo matemático.
use vstd::prelude::*;
use crate::decimal::{Dec, DecimalModelo};
use crate::texto::copiar as copiar_texto;
use crate::valores::Tipo;

verus! {

/// Uma expressão.
#[derive(Debug)]
pub enum Expressao {
    Decimal(Dec),
    String(Vec<char>),
    Boolean(bool),
    Variavel(Vec<char>),
    Soma(Box<Expressao>, Box<Expressao>),
    Subtracao(Box<Expressao>, Box<Expressao>),
    Multiplicacao(Box<Expressao>, Box<Expressao>),
    Divisao(Box<Expressao>, Box<Expressao>),
    Modulo(Box<Expressao>, Box<Expressao>),
    Negativo(Box<Expressao>),
    Maior(Box<Expressao>, Box<Expressao>),
    Menor(Box<Expressao>, Box<Expressao>),
    MaiorIgual(Box<Expressao>, Box<Expressao>),
    MenorIgual(Box<Expressao>, Box<Expressao>),
    Igual(Box<Expressao>, Box<Expressao>),
    Diferente(Box<Expressao>, Box<Expressao>),
    And(Box<Expressao>, Box<Expressao>),
    Or(Box<Expressao>, Box<Expressao>),
    Not(Box<Expressao>),
    Chamada { nome: Vec<char>, argumentos: Vec<Expressao> },
}

/// Os operadores de atribuição: `=`, `+=`, `-=`, `*=`, `/=` e `%=`.
#[derive(Clone, Copy, Debug, PartialEq, Eq, Structural)]
pub enum OperadorAtribuicao {
    Igual,
    Mais,
    Menos,
    Multiplica,
    Divide,
    Modulo,
}

/// Uma instrução.
#[derive(Debug)]
pub enum Instrucao {
    Declarar { tipo: Tipo, nome: Vec<char>, valor: Expressao, linha: usize },
    Atribuir { nome: Vec<char>, operador: OperadorAtribuicao, valor: Expressao, linha: usize },
    Display { valor: Expressao, linha: usize },
    If {
        condicao: Expressao,
        verdadeiro: Vec<Instrucao>,
        falso: Vec<Instrucao>,
        linha: usize,
    },
    While { condicao: Expressao, bloco: Vec<Instrucao>, linha: usize },
    Funcao { nome: Vec<char>, parametros: Vec<Vec<char>>, bloco: Vec<Instrucao>, linha: usize },
    Return { valor: Expressao, linha: usize },
}

// ================================================================
// Modelo
// ================================================================

/// O modelo de uma expressão.
pub enum ExprM {
    Decimal(DecimalModelo),
    Texto(Seq<char>),
    Booleano(bool),
    Variavel(Seq<char>),
    Soma(Box<ExprM>, Box<ExprM>),
    Subtracao(Box<ExprM>, Box<ExprM>),
    Multiplicacao(Box<ExprM>, Box<ExprM>),
    Divisao(Box<ExprM>, Box<ExprM>),
    Modulo(Box<ExprM>, Box<ExprM>),
    Negativo(Box<ExprM>),
    Maior(Box<ExprM>, Box<ExprM>),
    Menor(Box<ExprM>, Box<ExprM>),
    MaiorIgual(Box<ExprM>, Box<ExprM>),
    MenorIgual(Box<ExprM>, Box<ExprM>),
    Igual(Box<ExprM>, Box<ExprM>),
    Diferente(Box<ExprM>, Box<ExprM>),
    And(Box<ExprM>, Box<ExprM>),
    Or(Box<ExprM>, Box<ExprM>),
    Not(Box<ExprM>),
    Chamada { nome: Seq<char>, argumentos: Seq<ExprM> },
}

/// O modelo de uma instrução.
pub enum InstrM {
    Declarar { tipo: Tipo, nome: Seq<char>, valor: ExprM, linha: nat },
    Atribuir { nome: Seq<char>, operador: OperadorAtribuicao, valor: ExprM, linha: nat },
    Display { valor: ExprM, linha: nat },
    If { condicao: ExprM, verdadeiro: Seq<InstrM>, falso: Seq<InstrM>, linha: nat },
    While { condicao: ExprM, bloco: Seq<InstrM>, linha: nat },
    Funcao { nome: Seq<char>, parametros: Seq<Seq<char>>, bloco: Seq<InstrM>, linha: nat },
    Return { valor: ExprM, linha: nat },
}

impl Expressao {
    /// O modelo da expressão.
    pub open spec fn modelo(&self) -> ExprM
        decreases self, 0nat,
    {
        match self {
            Expressao::Decimal(d) => ExprM::Decimal(d@),
            Expressao::String(s) => ExprM::Texto(s@),
            Expressao::Boolean(b) => ExprM::Booleano(*b),
            Expressao::Variavel(n) => ExprM::Variavel(n@),
            Expressao::Soma(a, b) => ExprM::Soma(Box::new(a.modelo()), Box::new(b.modelo())),
            Expressao::Subtracao(a, b) => ExprM::Subtracao(
                Box::new(a.modelo()),
                Box::new(b.modelo()),
            ),
            Expressao::Multiplicacao(a, b) => ExprM::Multiplicacao(
                Box::new(a.modelo()),
                Box::new(b.modelo()),
            ),
            Expressao::Divisao(a, b) => ExprM::Divisao(Box::new(a.modelo()), Box::new(b.modelo())),
            Expressao::Modulo(a, b) => ExprM::Modulo(Box::new(a.modelo()), Box::new(b.modelo())),
            Expressao::Negativo(a) => ExprM::Negativo(Box::new(a.modelo())),
            Expressao::Maior(a, b) => ExprM::Maior(Box::new(a.modelo()), Box::new(b.modelo())),
            Expressao::Menor(a, b) => ExprM::Menor(Box::new(a.modelo()), Box::new(b.modelo())),
            Expressao::MaiorIgual(a, b) => ExprM::MaiorIgual(
                Box::new(a.modelo()),
                Box::new(b.modelo()),
            ),
            Expressao::MenorIgual(a, b) => ExprM::MenorIgual(
                Box::new(a.modelo()),
                Box::new(b.modelo()),
            ),
            Expressao::Igual(a, b) => ExprM::Igual(Box::new(a.modelo()), Box::new(b.modelo())),
            Expressao::Diferente(a, b) => ExprM::Diferente(
                Box::new(a.modelo()),
                Box::new(b.modelo()),
            ),
            Expressao::And(a, b) => ExprM::And(Box::new(a.modelo()), Box::new(b.modelo())),
            Expressao::Or(a, b) => ExprM::Or(Box::new(a.modelo()), Box::new(b.modelo())),
            Expressao::Not(a) => ExprM::Not(Box::new(a.modelo())),
            Expressao::Chamada { nome, argumentos } => ExprM::Chamada {
                nome: nome@,
                argumentos: modelos_expr(argumentos@),
            },
        }
    }
}

/// Os modelos de uma sequência de expressões.
pub open spec fn modelos_expr(s: Seq<Expressao>) -> Seq<ExprM>
    decreases s, s.len(),
{
    if s.len() == 0 {
        Seq::empty()
    } else {
        seq![s[0].modelo()] + modelos_expr(s.drop_first())
    }
}

impl Instrucao {
    /// O modelo da instrução.
    pub open spec fn modelo(&self) -> InstrM
        decreases self, 0nat,
    {
        match self {
            Instrucao::Declarar { tipo, nome, valor, linha } => InstrM::Declarar {
                tipo: *tipo,
                nome: nome@,
                valor: valor.modelo(),
                linha: *linha as nat,
            },
            Instrucao::Atribuir { nome, operador, valor, linha } => InstrM::Atribuir {
                nome: nome@,
                operador: *operador,
                valor: valor.modelo(),
                linha: *linha as nat,
            },
            Instrucao::Display { valor, linha } => InstrM::Display {
                valor: valor.modelo(),
                linha: *linha as nat,
            },
            Instrucao::If { condicao, verdadeiro, falso, linha } => InstrM::If {
                condicao: condicao.modelo(),
                verdadeiro: modelos_instr(verdadeiro@),
                falso: modelos_instr(falso@),
                linha: *linha as nat,
            },
            Instrucao::While { condicao, bloco, linha } => InstrM::While {
                condicao: condicao.modelo(),
                bloco: modelos_instr(bloco@),
                linha: *linha as nat,
            },
            Instrucao::Funcao { nome, parametros, bloco, linha } => InstrM::Funcao {
                nome: nome@,
                parametros: modelos_nomes(parametros@),
                bloco: modelos_instr(bloco@),
                linha: *linha as nat,
            },
            Instrucao::Return { valor, linha } => InstrM::Return {
                valor: valor.modelo(),
                linha: *linha as nat,
            },
        }
    }
}

/// Os modelos de uma sequência de instruções.
pub open spec fn modelos_instr(s: Seq<Instrucao>) -> Seq<InstrM>
    decreases s, s.len(),
{
    if s.len() == 0 {
        Seq::empty()
    } else {
        seq![s[0].modelo()] + modelos_instr(s.drop_first())
    }
}

/// Os textos de uma sequência de nomes.
pub open spec fn modelos_nomes(s: Seq<Vec<char>>) -> Seq<Seq<char>> {
    s.map_values(|n: Vec<char>| n@)
}

// ================================================================
// Tamanho: a medida que as definições recursivas sobre programas usam
// ================================================================

/// O número de nós de uma expressão.
pub open spec fn tam_expr(e: ExprM) -> nat
    decreases e, 0nat,
{
    match e {
        ExprM::Decimal(_) | ExprM::Texto(_) | ExprM::Booleano(_) | ExprM::Variavel(_) => 1,
        ExprM::Soma(a, b) | ExprM::Subtracao(a, b) | ExprM::Multiplicacao(a, b) | ExprM::Divisao(
            a,
            b,
        ) | ExprM::Modulo(a, b) | ExprM::Maior(a, b) | ExprM::Menor(a, b) | ExprM::MaiorIgual(a, b)
        | ExprM::MenorIgual(a, b) | ExprM::Igual(a, b) | ExprM::Diferente(a, b) | ExprM::And(a, b)
        | ExprM::Or(a, b) => 1 + tam_expr(*a) + tam_expr(*b),
        ExprM::Negativo(a) | ExprM::Not(a) => 1 + tam_expr(*a),
        ExprM::Chamada { argumentos, .. } => 1 + tam_exprs(argumentos),
    }
}

/// O número de nós de uma sequência de expressões.
pub open spec fn tam_exprs(s: Seq<ExprM>) -> nat
    decreases s, s.len(),
{
    if s.len() == 0 {
        0
    } else {
        1 + tam_expr(s[0]) + tam_exprs(s.drop_first())
    }
}

/// O número de nós de uma instrução.
pub open spec fn tam_instr(i: InstrM) -> nat
    decreases i, 0nat,
{
    match i {
        InstrM::Declarar { valor, .. } | InstrM::Atribuir { valor, .. } | InstrM::Display {
            valor,
            ..
        } | InstrM::Return { valor, .. } => 1 + tam_expr(valor),
        InstrM::If { condicao, verdadeiro, falso, .. } => 1 + tam_expr(condicao) + tam_instrs(
            verdadeiro,
        ) + tam_instrs(falso),
        InstrM::While { condicao, bloco, .. } => 1 + tam_expr(condicao) + tam_instrs(bloco),
        InstrM::Funcao { bloco, .. } => 1 + tam_instrs(bloco),
    }
}

/// O número de nós de uma sequência de instruções.
pub open spec fn tam_instrs(s: Seq<InstrM>) -> nat
    decreases s, s.len(),
{
    if s.len() == 0 {
        0
    } else {
        1 + tam_instr(s[0]) + tam_instrs(s.drop_first())
    }
}

/// Cada expressão de uma sequência é menor que a sequência.
pub proof fn lema_tam_exprs(s: Seq<ExprM>, i: int)
    requires
        0 <= i < s.len(),
    ensures
        tam_expr(s[i]) < tam_exprs(s),
    decreases s.len(),
{
    if i > 0 {
        lema_tam_exprs(s.drop_first(), i - 1);
        assert(s.drop_first()[i - 1] == s[i]);
    }
}

/// Cada instrução de uma sequência é menor que a sequência.
pub proof fn lema_tam_instrs(s: Seq<InstrM>, i: int)
    requires
        0 <= i < s.len(),
    ensures
        tam_instr(s[i]) < tam_instrs(s),
    decreases s.len(),
{
    if i > 0 {
        lema_tam_instrs(s.drop_first(), i - 1);
        assert(s.drop_first()[i - 1] == s[i]);
    }
}

// ================================================================
// Boa formação: os decimais de um programa têm escala válida
// ================================================================

/// Um decimal com escala de no máximo 28 e mantissa de 96 bits.
pub open spec fn decimal_wf(d: DecimalModelo) -> bool {
    d.escala <= 28
}

/// Todos os decimais da expressão são bem formados.
pub open spec fn expr_wf(e: ExprM) -> bool
    decreases e, 0nat,
{
    match e {
        ExprM::Decimal(d) => decimal_wf(d),
        ExprM::Texto(_) | ExprM::Booleano(_) | ExprM::Variavel(_) => true,
        ExprM::Soma(a, b) | ExprM::Subtracao(a, b) | ExprM::Multiplicacao(a, b) | ExprM::Divisao(
            a,
            b,
        ) | ExprM::Modulo(a, b) | ExprM::Maior(a, b) | ExprM::Menor(a, b) | ExprM::MaiorIgual(a, b)
        | ExprM::MenorIgual(a, b) | ExprM::Igual(a, b) | ExprM::Diferente(a, b) | ExprM::And(a, b)
        | ExprM::Or(a, b) => expr_wf(*a) && expr_wf(*b),
        ExprM::Negativo(a) | ExprM::Not(a) => expr_wf(*a),
        ExprM::Chamada { argumentos, .. } => exprs_wf(argumentos),
    }
}

/// Todas as expressões da sequência são bem formadas.
pub open spec fn exprs_wf(s: Seq<ExprM>) -> bool
    decreases s, s.len(),
{
    if s.len() == 0 {
        true
    } else {
        expr_wf(s[0]) && exprs_wf(s.drop_first())
    }
}

/// Todas as expressões da instrução são bem formadas.
pub open spec fn instr_wf(i: InstrM) -> bool
    decreases i, 0nat,
{
    match i {
        InstrM::Declarar { valor, .. } | InstrM::Atribuir { valor, .. } | InstrM::Display {
            valor,
            ..
        } | InstrM::Return { valor, .. } => expr_wf(valor),
        InstrM::If { condicao, verdadeiro, falso, .. } => expr_wf(condicao) && instrs_wf(verdadeiro)
            && instrs_wf(falso),
        InstrM::While { condicao, bloco, .. } => expr_wf(condicao) && instrs_wf(bloco),
        InstrM::Funcao { bloco, .. } => instrs_wf(bloco),
    }
}

/// Todas as instruções da sequência são bem formadas.
pub open spec fn instrs_wf(s: Seq<InstrM>) -> bool
    decreases s, s.len(),
{
    if s.len() == 0 {
        true
    } else {
        instr_wf(s[0]) && instrs_wf(s.drop_first())
    }
}

pub proof fn lema_exprs_wf(s: Seq<ExprM>)
    ensures
        exprs_wf(s) <==> forall|i: int| 0 <= i < s.len() ==> expr_wf(#[trigger] s[i]),
    decreases s.len(),
{
    if s.len() > 0 {
        lema_exprs_wf(s.drop_first());
        assert forall|i: int| 0 < i < s.len() implies s[i] == s.drop_first()[i - 1] by {}
        if forall|i: int| 0 <= i < s.len() ==> expr_wf(#[trigger] s[i]) {
            assert forall|i: int| 0 <= i < s.drop_first().len() implies expr_wf(
                #[trigger] s.drop_first()[i],
            ) by {
                assert(s.drop_first()[i] == s[i + 1]);
            }
        }
    }
}

pub proof fn lema_instrs_wf(s: Seq<InstrM>)
    ensures
        instrs_wf(s) <==> forall|i: int| 0 <= i < s.len() ==> instr_wf(#[trigger] s[i]),
    decreases s.len(),
{
    if s.len() > 0 {
        lema_instrs_wf(s.drop_first());
        assert forall|i: int| 0 < i < s.len() implies s[i] == s.drop_first()[i - 1] by {}
        if forall|i: int| 0 <= i < s.len() ==> instr_wf(#[trigger] s[i]) {
            assert forall|i: int| 0 <= i < s.drop_first().len() implies instr_wf(
                #[trigger] s.drop_first()[i],
            ) by {
                assert(s.drop_first()[i] == s[i + 1]);
            }
        }
    }
}

/// Os modelos de uma sequência de expressões, elemento a elemento.
pub proof fn lema_modelos_expr(s: Seq<Expressao>)
    ensures
        modelos_expr(s).len() == s.len(),
        forall|i: int| 0 <= i < s.len() ==> #[trigger] modelos_expr(s)[i] == s[i].modelo(),
    decreases s.len(),
{
    if s.len() > 0 {
        lema_modelos_expr(s.drop_first());
        assert forall|i: int| 0 <= i < s.len() implies #[trigger] modelos_expr(s)[i]
            == s[i].modelo() by {
            if i > 0 {
                assert(s[i] == s.drop_first()[i - 1]);
            }
        }
    }
}

/// Os modelos de uma sequência de instruções, elemento a elemento.
pub proof fn lema_modelos_instr(s: Seq<Instrucao>)
    ensures
        modelos_instr(s).len() == s.len(),
        forall|i: int| 0 <= i < s.len() ==> #[trigger] modelos_instr(s)[i] == s[i].modelo(),
    decreases s.len(),
{
    if s.len() > 0 {
        lema_modelos_instr(s.drop_first());
        assert forall|i: int| 0 <= i < s.len() implies #[trigger] modelos_instr(s)[i]
            == s[i].modelo() by {
            if i > 0 {
                assert(s[i] == s.drop_first()[i - 1]);
            }
        }
    }
}

// ================================================================
// Cópias
// ================================================================

impl Expressao {
    /// Uma cópia da expressão.
    pub fn copiar(&self) -> (r: Expressao)
        ensures
            r.modelo() == self.modelo(),
        decreases self,
    {
        match self {
            Expressao::Decimal(d) => Expressao::Decimal(*d),
            Expressao::String(s) => Expressao::String(copiar_texto(s.as_slice())),
            Expressao::Boolean(b) => Expressao::Boolean(*b),
            Expressao::Variavel(n) => Expressao::Variavel(copiar_texto(n.as_slice())),
            Expressao::Soma(a, b) => Expressao::Soma(Box::new(a.copiar()), Box::new(b.copiar())),
            Expressao::Subtracao(a, b) => Expressao::Subtracao(
                Box::new(a.copiar()),
                Box::new(b.copiar()),
            ),
            Expressao::Multiplicacao(a, b) => Expressao::Multiplicacao(
                Box::new(a.copiar()),
                Box::new(b.copiar()),
            ),
            Expressao::Divisao(a, b) => Expressao::Divisao(
                Box::new(a.copiar()),
                Box::new(b.copiar()),
            ),
            Expressao::Modulo(a, b) => Expressao::Modulo(
                Box::new(a.copiar()),
                Box::new(b.copiar()),
            ),
            Expressao::Negativo(a) => Expressao::Negativo(Box::new(a.copiar())),
            Expressao::Maior(a, b) => Expressao::Maior(Box::new(a.copiar()), Box::new(b.copiar())),
            Expressao::Menor(a, b) => Expressao::Menor(Box::new(a.copiar()), Box::new(b.copiar())),
            Expressao::MaiorIgual(a, b) => Expressao::MaiorIgual(
                Box::new(a.copiar()),
                Box::new(b.copiar()),
            ),
            Expressao::MenorIgual(a, b) => Expressao::MenorIgual(
                Box::new(a.copiar()),
                Box::new(b.copiar()),
            ),
            Expressao::Igual(a, b) => Expressao::Igual(Box::new(a.copiar()), Box::new(b.copiar())),
            Expressao::Diferente(a, b) => Expressao::Diferente(
                Box::new(a.copiar()),
                Box::new(b.copiar()),
            ),
            Expressao::And(a, b) => Expressao::And(Box::new(a.copiar()), Box::new(b.copiar())),
            Expressao::Or(a, b) => Expressao::Or(Box::new(a.copiar()), Box::new(b.copiar())),
            Expressao::Not(a) => Expressao::Not(Box::new(a.copiar())),
            Expressao::Chamada { nome, argumentos } => {
                let mut copia: Vec<Expressao> = Vec::new();
                let n: usize = argumentos.len();
                let mut i: usize = 0;
                #[verifier::loop_isolation(false)]
                while i < n
                    invariant
                        n == argumentos@.len(),
                        i <= n,
                        copia@.len() == i,
                        forall|j: int| 0 <= j < i ==> #[trigger] copia@[j].modelo()
                            == argumentos@[j].modelo(),
                    decreases n - i,
                {
                    proof {
                        assert(decreases_to!(argumentos@ => argumentos@[i as int]));
                        assert(decreases_to!(*argumentos => argumentos@));
                        assert(decreases_to!(*self => self->argumentos));
                        assert(decreases_to!(*self => argumentos@[i as int]));
                    }
                    let e = argumentos[i].copiar();
                    copia.push(e);
                    i = i + 1;
                }
                proof {
                    lema_modelos_expr(copia@);
                    lema_modelos_expr(argumentos@);
                    assert(modelos_expr(copia@) =~= modelos_expr(argumentos@));
                }
                Expressao::Chamada { nome: copiar_texto(nome.as_slice()), argumentos: copia }
            },
        }
    }
}

impl Instrucao {
    /// Uma cópia da instrução.
    pub fn copiar(&self) -> (r: Instrucao)
        ensures
            r.modelo() == self.modelo(),
        decreases self, 0nat,
    {
        match self {
            Instrucao::Declarar { tipo, nome, valor, linha } => Instrucao::Declarar {
                tipo: *tipo,
                nome: copiar_texto(nome.as_slice()),
                valor: valor.copiar(),
                linha: *linha,
            },
            Instrucao::Atribuir { nome, operador, valor, linha } => Instrucao::Atribuir {
                nome: copiar_texto(nome.as_slice()),
                operador: *operador,
                valor: valor.copiar(),
                linha: *linha,
            },
            Instrucao::Display { valor, linha } => Instrucao::Display {
                valor: valor.copiar(),
                linha: *linha,
            },
            Instrucao::If { condicao, verdadeiro, falso, linha } => {
                proof {
                    assert(decreases_to!(*self => self->verdadeiro));
                    assert(decreases_to!(*self => self->falso));
                }
                Instrucao::If {
                    condicao: condicao.copiar(),
                    verdadeiro: copiar_bloco(verdadeiro),
                    falso: copiar_bloco(falso),
                    linha: *linha,
                }
            },
            Instrucao::While { condicao, bloco, linha } => {
                proof {
                    assert(decreases_to!(*self => self->While_bloco));
                }
                Instrucao::While {
                    condicao: condicao.copiar(),
                    bloco: copiar_bloco(bloco),
                    linha: *linha,
                }
            },
            Instrucao::Funcao { nome, parametros, bloco, linha } => {
                proof {
                    assert(decreases_to!(*self => self->Funcao_bloco));
                }
                Instrucao::Funcao {
                    nome: copiar_texto(nome.as_slice()),
                    parametros: copiar_nomes(parametros),
                    bloco: copiar_bloco(bloco),
                    linha: *linha,
                }
            },
            Instrucao::Return { valor, linha } => Instrucao::Return {
                valor: valor.copiar(),
                linha: *linha,
            },
        }
    }
}

/// Uma cópia de um bloco de instruções.
pub fn copiar_bloco(bloco: &Vec<Instrucao>) -> (r: Vec<Instrucao>)
    ensures
        modelos_instr(r@) == modelos_instr(bloco@),
    decreases *bloco, 1nat,
{
    let mut copia: Vec<Instrucao> = Vec::new();
    let n: usize = bloco.len();
    let mut i: usize = 0;
    #[verifier::loop_isolation(false)]
    while i < n
        invariant
            n == bloco@.len(),
            i <= n,
            copia@.len() == i,
            forall|j: int| 0 <= j < i ==> #[trigger] copia@[j].modelo() == bloco@[j].modelo(),
        decreases n - i,
    {
        proof {
            assert(decreases_to!(bloco@ => bloco@[i as int]));
            assert(decreases_to!(*bloco => bloco@));
        }
        let x = bloco[i].copiar();
        copia.push(x);
        i = i + 1;
    }
    proof {
        lema_modelos_instr(copia@);
        lema_modelos_instr(bloco@);
        assert(modelos_instr(copia@) =~= modelos_instr(bloco@));
    }
    copia
}

/// Uma cópia de uma lista de nomes.
pub fn copiar_nomes(nomes: &Vec<Vec<char>>) -> (r: Vec<Vec<char>>)
    ensures
        modelos_nomes(r@) == modelos_nomes(nomes@),
{
    let mut copia: Vec<Vec<char>> = Vec::new();
    let n: usize = nomes.len();
    let mut i: usize = 0;
    while i < n
        invariant
            n == nomes@.len(),
            i <= n,
            copia@.len() == i,
            forall|j: int| 0 <= j < i ==> #[trigger] copia@[j]@ == nomes@[j]@,
        decreases n - i,
    {
        copia.push(copiar_texto(&nomes[i]));
        i = i + 1;
    }
    assert(modelos_nomes(copia@) =~= modelos_nomes(nomes@));
    copia
}

} // verus!
