//! O parser: descida recursiva sobre os tokens. Cada método lê a partir do
//! token atual e termina exatamente como a regra correspondente de
//! `gramatica` diz.
use vstd::prelude::*;
use crate::ast::{
    ExprM, Expressao, InstrM, Instrucao, OperadorAtribuicao, expr_wf, exprs_wf, instr_wf, instrs_wf,
    lema_exprs_wf, lema_instrs_wf, lema_modelos_expr, lema_modelos_instr, modelos_expr,
    modelos_instr, modelos_nomes,
};
use crate::decimal::{Dec, decimal_do_texto, opcao_modelo};
use crate::gramatica::{
    avanca, binaria, erro_sintaxe, fecha_bloco, operador_de, operador_do_nivel, p_argumentos,
    p_bloco, p_consumir, p_display, p_expressao, p_funcao, p_if, p_instrucao, p_nivel,
    p_nivel_resto, p_operando, p_parametros, p_primario, p_programa, p_retorno, p_unario, p_while,
    p_atribuicao, p_declaracao, terminada, tipo_de, token_em,
};
use crate::lexer::{Token, TokenKind, TokenModelo, modelos_tokens};
use crate::texto::{anexar, anexar_literal, iguais, texto_de};
use crate::valores::{ErroModelo, NeoErro, Tipo};

verus! {

/// O parser: os tokens do programa e a posição do token atual.
pub struct Parser {
    tokens: Vec<Token>,
    atual: usize,
}

/// O modelo do parser.
pub struct EstadoParser {
    pub tokens: Seq<TokenModelo>,
    pub atual: int,
}

impl View for Parser {
    type V = EstadoParser;

    closed spec fn view(&self) -> EstadoParser {
        EstadoParser { tokens: modelos_tokens(self.tokens@), atual: self.atual as int }
    }
}

// ================================================================
// Modelos dos resultados
// ================================================================

/// O modelo do resultado de `consumir`, com a posição em que o parser ficou.
pub open spec fn resultado_token(r: Result<Token, NeoErro>, q: int) -> Result<
    (TokenModelo, int),
    ErroModelo,
> {
    match r {
        Ok(t) => Ok((t@, q)),
        Err(e) => Err(e@),
    }
}

/// O modelo do resultado de uma regra de expressão.
pub open spec fn resultado_expr(r: Result<Expressao, NeoErro>, q: int) -> Result<
    (ExprM, int),
    ErroModelo,
> {
    match r {
        Ok(e) => Ok((e.modelo(), q)),
        Err(x) => Err(x@),
    }
}

/// O modelo do resultado de uma lista de expressões.
pub open spec fn resultado_exprs(r: Result<Vec<Expressao>, NeoErro>, q: int) -> Result<
    (Seq<ExprM>, int),
    ErroModelo,
> {
    match r {
        Ok(v) => Ok((modelos_expr(v@), q)),
        Err(x) => Err(x@),
    }
}

/// O modelo do resultado de uma regra de instrução.
pub open spec fn resultado_instr(r: Result<Instrucao, NeoErro>, q: int) -> Result<
    (InstrM, int),
    ErroModelo,
> {
    match r {
        Ok(i) => Ok((i.modelo(), q)),
        Err(x) => Err(x@),
    }
}

/// O modelo do resultado de uma lista de instruções.
pub open spec fn resultado_bloco(r: Result<Vec<Instrucao>, NeoErro>, q: int) -> Result<
    (Seq<InstrM>, int),
    ErroModelo,
> {
    match r {
        Ok(v) => Ok((modelos_instr(v@), q)),
        Err(x) => Err(x@),
    }
}

/// O modelo do resultado de uma lista de nomes.
pub open spec fn resultado_nomes(r: Result<Vec<Vec<char>>, NeoErro>, q: int) -> Result<
    (Seq<Seq<char>>, int),
    ErroModelo,
> {
    match r {
        Ok(v) => Ok((modelos_nomes(v@), q)),
        Err(x) => Err(x@),
    }
}

/// Uma regra de expressão leu de `antes` até `depois` o que `esperado` diz:
/// os tokens não mudam, e um sucesso avança e dá uma expressão bem formada.
pub open spec fn leu_expr(
    antes: EstadoParser,
    depois: EstadoParser,
    r: Result<Expressao, NeoErro>,
    esperado: Result<(ExprM, int), ErroModelo>,
) -> bool {
    &&& depois.tokens == antes.tokens
    &&& resultado_expr(r, depois.atual) == esperado
    &&& r matches Ok(e) ==> depois.atual > antes.atual && expr_wf(e.modelo())
}

/// Uma regra de instrução leu de `antes` até `depois` o que `esperado` diz.
pub open spec fn leu_instr(
    antes: EstadoParser,
    depois: EstadoParser,
    r: Result<Instrucao, NeoErro>,
    esperado: Result<(InstrM, int), ErroModelo>,
) -> bool {
    &&& depois.tokens == antes.tokens
    &&& resultado_instr(r, depois.atual) == esperado
    &&& r matches Ok(i) ==> depois.atual > antes.atual && instr_wf(i.modelo())
}

// ================================================================
// Lemas sobre os modelos de listas
// ================================================================

proof fn lema_push_expr(v: Seq<Expressao>, x: Expressao)
    ensures
        modelos_expr(v.push(x)) == modelos_expr(v).push(x.modelo()),
{
    lema_modelos_expr(v);
    lema_modelos_expr(v.push(x));
    assert(modelos_expr(v.push(x)) =~= modelos_expr(v).push(x.modelo()));
}

proof fn lema_push_instr(v: Seq<Instrucao>, x: Instrucao)
    ensures
        modelos_instr(v.push(x)) == modelos_instr(v).push(x.modelo()),
{
    lema_modelos_instr(v);
    lema_modelos_instr(v.push(x));
    assert(modelos_instr(v.push(x)) =~= modelos_instr(v).push(x.modelo()));
}

proof fn lema_exprs_wf_push(s: Seq<ExprM>, y: ExprM)
    requires
        exprs_wf(s),
        expr_wf(y),
    ensures
        exprs_wf(s.push(y)),
{
    lema_exprs_wf(s);
    lema_exprs_wf(s.push(y));
    assert forall|i: int| 0 <= i < s.push(y).len() implies expr_wf(#[trigger] s.push(y)[i]) by {
        if i < s.len() {
            assert(s.push(y)[i] == s[i]);
        }
    }
}

proof fn lema_instrs_wf_push(s: Seq<InstrM>, y: InstrM)
    requires
        instrs_wf(s),
        instr_wf(y),
    ensures
        instrs_wf(s.push(y)),
{
    lema_instrs_wf(s);
    lema_instrs_wf(s.push(y));
    assert forall|i: int| 0 <= i < s.push(y).len() implies instr_wf(#[trigger] s.push(y)[i]) by {
        if i < s.len() {
            assert(s.push(y)[i] == s[i]);
        }
    }
}

// ================================================================
// Pequenas funções de apoio
// ================================================================

/// O literal decimal lido de um token: o decimal que `Decimal::from_str`
/// deu, ou o erro "Número decimal inválido." na linha do token.
pub fn literal_decimal(valor: Option<Dec>, linha: usize) -> (r: Result<Expressao, NeoErro>)
    ensures
        match opcao_modelo(valor) {
            Some(d) => r matches Ok(e) && e.modelo() == ExprM::Decimal(d),
            None => r matches Err(x) && x@ == erro_sintaxe(
                linha as nat,
                "Número decimal inválido."@,
            ),
        },
        (valor matches Some(d) && d.wf()) ==> (r matches Ok(e) && expr_wf(e.modelo())),
{
    match valor {
        Some(d) => Ok(Expressao::Decimal(d)),
        None => Err(NeoErro::Sintaxe { linha, mensagem: texto_de("Número decimal inválido.") }),
    }
}

fn operador_do_nivel_exec(nivel: u8, k: TokenKind) -> (r: bool)
    ensures
        r == operador_do_nivel(nivel as nat, k),
{
    if nivel == 5 {
        k == TokenKind::Or
    } else if nivel == 4 {
        k == TokenKind::And
    } else if nivel == 3 {
        k == TokenKind::Maior || k == TokenKind::Menor || k == TokenKind::MaiorIgual || k
            == TokenKind::MenorIgual || k == TokenKind::IgualIgual || k == TokenKind::Diferente
    } else if nivel == 2 {
        k == TokenKind::Mais || k == TokenKind::Menos
    } else {
        k == TokenKind::Multiplica || k == TokenKind::Divide || k == TokenKind::Modulo
    }
}

fn binaria_exec(k: TokenKind, a: Expressao, b: Expressao) -> (r: Expressao)
    ensures
        r.modelo() == binaria(k, a.modelo(), b.modelo()),
        expr_wf(a.modelo()) && expr_wf(b.modelo()) ==> expr_wf(r.modelo()),
{
    let (a, b) = (Box::new(a), Box::new(b));
    match k {
        TokenKind::Or => Expressao::Or(a, b),
        TokenKind::And => Expressao::And(a, b),
        TokenKind::Maior => Expressao::Maior(a, b),
        TokenKind::Menor => Expressao::Menor(a, b),
        TokenKind::MaiorIgual => Expressao::MaiorIgual(a, b),
        TokenKind::MenorIgual => Expressao::MenorIgual(a, b),
        TokenKind::IgualIgual => Expressao::Igual(a, b),
        TokenKind::Diferente => Expressao::Diferente(a, b),
        TokenKind::Mais => Expressao::Soma(a, b),
        TokenKind::Menos => Expressao::Subtracao(a, b),
        TokenKind::Multiplica => Expressao::Multiplicacao(a, b),
        TokenKind::Divide => Expressao::Divisao(a, b),
        _ => Expressao::Modulo(a, b),
    }
}

fn operador_exec(k: TokenKind) -> (r: Option<OperadorAtribuicao>)
    ensures
        r == operador_de(k),
{
    match k {
        TokenKind::Igual => Some(OperadorAtribuicao::Igual),
        TokenKind::MaisIgual => Some(OperadorAtribuicao::Mais),
        TokenKind::MenosIgual => Some(OperadorAtribuicao::Menos),
        TokenKind::MultiplicaIgual => Some(OperadorAtribuicao::Multiplica),
        TokenKind::DivideIgual => Some(OperadorAtribuicao::Divide),
        TokenKind::ModuloIgual => Some(OperadorAtribuicao::Modulo),
        _ => None,
    }
}

fn tipo_exec(k: TokenKind) -> (r: Tipo)
    ensures
        r == tipo_de(k),
{
    if k == TokenKind::Decimal {
        Tipo::Decimal
    } else if k == TokenKind::String {
        Tipo::String
    } else {
        Tipo::Boolean
    }
}

fn fecha_exec(k: TokenKind, com_else: bool) -> (r: bool)
    ensures
        r == fecha_bloco(k, com_else),
{
    k == TokenKind::End || k == TokenKind::Fim || (com_else && k == TokenKind::Else)
}

// ================================================================
// O parser
// ================================================================

impl Parser {
    /// A posição atual está entre os tokens.
    pub open spec fn posicao_valida(&self) -> bool {
        0 <= self@.atual < self@.tokens.len()
    }

    /// Os tokens terminam em `Fim` e a posição atual está entre eles: a
    /// forma em que a leitura de um programa pode começar.
    pub open spec fn wf(&self) -> bool {
        &&& terminada(self@.tokens)
        &&& self.posicao_valida()
    }

    /// Um parser no primeiro token.
    pub fn novo(tokens: Vec<Token>) -> (r: Parser)
        ensures
            r@ == (EstadoParser { tokens: modelos_tokens(tokens@), atual: 0 }),
            r.posicao_valida() == (tokens@.len() > 0),
            r.wf() == terminada(modelos_tokens(tokens@)),
    {
        Parser { tokens, atual: 0 }
    }

    /// O token atual.
    pub fn atual(&self) -> (r: &Token)
        requires
            self.posicao_valida(),
        ensures
            r@ == token_em(self@.tokens, self@.atual),
    {
        &self.tokens[self.atual]
    }

    /// Passa ao token seguinte, sem nunca passar do último.
    pub fn avancar(&mut self)
        requires
            old(self)@.tokens.len() >= 1,
        ensures
            final(self)@ == (EstadoParser {
                atual: avanca(old(self)@.tokens, old(self)@.atual),
                ..old(self)@
            }),
            old(self).posicao_valida() ==> final(self).posicao_valida(),
            old(self).wf() ==> final(self).wf(),
    {
        if self.atual < self.tokens.len() - 1 {
            self.atual = self.atual + 1;
        }
    }

    /// Consome o token atual se ele tiver o tipo esperado.
    pub fn consumir(&mut self, esperado: TokenKind) -> (r: Result<Token, NeoErro>)
        requires
            old(self).posicao_valida(),
        ensures
            final(self).posicao_valida(),
            old(self).wf() ==> final(self).wf(),
            final(self)@.tokens == old(self)@.tokens,
            resultado_token(r, final(self)@.atual) == p_consumir(
                old(self)@.tokens,
                old(self)@.atual,
                esperado,
            ),
            old(self).wf() && r is Ok && esperado != TokenKind::Fim
                ==> final(self)@.atual > old(self)@.atual,
            r is Err ==> final(self)@ == old(self)@,
    {
        let token = self.atual().copiar();
        if token.kind == esperado {
            self.avancar();
            Ok(token)
        } else {
            let mut m = texto_de("Esperado ");
            anexar_literal(&mut m, esperado.nome());
            anexar_literal(&mut m, ", encontrado '");
            anexar(&mut m, token.texto.as_slice());
            anexar_literal(&mut m, "'.");
            Err(NeoErro::Sintaxe { linha: token.linha, mensagem: m })
        }
    }

    /// O tipo do token atual.
    fn tipo_atual(&self) -> (r: TokenKind)
        requires
            self.wf(),
        ensures
            r == token_em(self@.tokens, self@.atual).kind,
    {
        self.atual().kind
    }

    // ============================================================
    // Expressões
    // ============================================================

    /// Uma expressão completa.
    fn expressao(&mut self) -> (r: Result<Expressao, NeoErro>)
        requires
            old(self).wf(),
        ensures
            final(self).wf(),
            leu_expr(
                old(self)@,
                final(self)@,
                r,
                p_expressao(old(self)@.tokens, old(self)@.atual),
            ),
        decreases old(self)@.tokens.len() - old(self)@.atual, 16nat,
    {
        self.nivel_binario(5)
    }

    /// Um operando do nível `nivel`.
    fn operando(&mut self, nivel: u8) -> (r: Result<Expressao, NeoErro>)
        requires
            old(self).wf(),
            1 <= nivel <= 5,
        ensures
            final(self).wf(),
            leu_expr(
                old(self)@,
                final(self)@,
                r,
                p_operando(old(self)@.tokens, nivel as nat, old(self)@.atual),
            ),
        decreases old(self)@.tokens.len() - old(self)@.atual, 2 * nivel + 4,
    {
        if nivel <= 1 {
            self.unario()
        } else {
            self.nivel_binario(nivel - 1)
        }
    }

    /// Os operandos de um nível ligados pelos seus operadores binários,
    /// associando à esquerda (`or`, `and`, comparações, `+ -`, `* / %`).
    fn nivel_binario(&mut self, nivel: u8) -> (r: Result<Expressao, NeoErro>)
        requires
            old(self).wf(),
            1 <= nivel <= 5,
        ensures
            final(self).wf(),
            leu_expr(
                old(self)@,
                final(self)@,
                r,
                p_nivel(old(self)@.tokens, nivel as nat, old(self)@.atual),
            ),
        decreases old(self)@.tokens.len() - old(self)@.atual, 2 * nivel + 5,
    {
        let ghost ts = self@.tokens;
        let ghost p0 = self@.atual;
        let mut esquerda = self.operando(nivel)?;
        loop
            invariant
                self.wf(),
                self@.tokens == ts,
                ts == old(self)@.tokens,
                p0 == old(self)@.atual,
                self@.atual > p0,
                1 <= nivel <= 5,
                expr_wf(esquerda.modelo()),
                p_nivel(ts, nivel as nat, p0) == p_nivel_resto(
                    ts,
                    nivel as nat,
                    esquerda.modelo(),
                    self@.atual,
                ),
            decreases ts.len() - self@.atual,
        {
            let k = self.tipo_atual();
            if !operador_do_nivel_exec(nivel, k) {
                return Ok(esquerda);
            }
            self.avancar();
            let direita = self.operando(nivel)?;
            esquerda = binaria_exec(k, esquerda, direita);
        }
    }

    /// `not` e `-` prefixos, ou um primário.
    fn unario(&mut self) -> (r: Result<Expressao, NeoErro>)
        requires
            old(self).wf(),
        ensures
            final(self).wf(),
            leu_expr(old(self)@, final(self)@, r, p_unario(old(self)@.tokens, old(self)@.atual)),
        decreases old(self)@.tokens.len() - old(self)@.atual, 2nat,
    {
        let k = self.tipo_atual();
        if k == TokenKind::Not || k == TokenKind::Menos {
            self.avancar();
            let e = self.unario()?;
            if k == TokenKind::Not {
                Ok(Expressao::Not(Box::new(e)))
            } else {
                Ok(Expressao::Negativo(Box::new(e)))
            }
        } else {
            self.primario()
        }
    }

    /// Um número, texto, booleano, variável, chamada ou expressão entre
    /// parênteses.
    fn primario(&mut self) -> (r: Result<Expressao, NeoErro>)
        requires
            old(self).wf(),
        ensures
            final(self).wf(),
            leu_expr(
                old(self)@,
                final(self)@,
                r,
                p_primario(old(self)@.tokens, old(self)@.atual),
            ),
        decreases old(self)@.tokens.len() - old(self)@.atual, 1nat,
    {
        let token = self.atual().copiar();
        match token.kind {
            TokenKind::Numero => {
                self.avancar();
                literal_decimal(decimal_do_texto(token.texto.as_slice()), token.linha)
            },
            TokenKind::Texto => {
                self.avancar();
                Ok(Expressao::String(token.texto))
            },
            TokenKind::Boolean => {
                self.avancar();
                let verdadeiro = texto_de("true");
                Ok(Expressao::Boolean(iguais(token.texto.as_slice(), verdadeiro.as_slice())))
            },
            TokenKind::Identificador => {
                let ghost ts = self@.tokens;
                let ghost p = self@.atual;
                self.avancar();
                if self.tipo_atual() == TokenKind::AbrePar {
                    self.avancar();
                    let mut argumentos: Vec<Expressao> = Vec::new();
                    assert(modelos_expr(argumentos@) =~= Seq::<ExprM>::empty());
                    if self.tipo_atual() != TokenKind::FechaPar {
                        argumentos = self.argumentos()?;
                    }
                    assert(exprs_wf(modelos_expr(argumentos@)));
                    self.consumir(TokenKind::FechaPar)?;
                    let ghost a = modelos_expr(argumentos@);
                    assert(p_primario(ts, p) == Ok::<(ExprM, int), ErroModelo>(
                        (ExprM::Chamada { nome: token@.texto, argumentos: a }, self@.atual),
                    ));
                    return Ok(Expressao::Chamada { nome: token.texto, argumentos });
                }
                Ok(Expressao::Variavel(token.texto))
            },
            TokenKind::AbrePar => {
                self.avancar();
                let resultado = self.expressao()?;
                self.consumir(TokenKind::FechaPar)?;
                Ok(resultado)
            },
            _ => {
                let mut m = texto_de("Expressão inesperada '");
                anexar(&mut m, token.texto.as_slice());
                anexar_literal(&mut m, "'.");
                Err(NeoErro::Sintaxe { linha: token.linha, mensagem: m })
            },
        }
    }

    /// Os argumentos de uma chamada, separados por vírgulas.
    fn argumentos(&mut self) -> (r: Result<Vec<Expressao>, NeoErro>)
        requires
            old(self).wf(),
        ensures
            final(self).wf(),
            final(self)@.tokens == old(self)@.tokens,
            resultado_exprs(r, final(self)@.atual) == p_argumentos(
                old(self)@.tokens,
                Seq::empty(),
                old(self)@.atual,
            ),
            r matches Ok(v) ==> final(self)@.atual > old(self)@.atual && exprs_wf(
                modelos_expr(v@),
            ),
        decreases old(self)@.tokens.len() - old(self)@.atual, 17nat,
    {
        let ghost ts = self@.tokens;
        let ghost p0 = self@.atual;
        let mut argumentos: Vec<Expressao> = Vec::new();
        assert(modelos_expr(argumentos@) =~= Seq::<ExprM>::empty());
        loop
            invariant
                self.wf(),
                self@.tokens == ts,
                ts == old(self)@.tokens,
                p0 == old(self)@.atual,
                self@.atual >= p0,
                argumentos@.len() > 0 ==> self@.atual > p0,
                exprs_wf(modelos_expr(argumentos@)),
                p_argumentos(ts, Seq::empty(), p0) == p_argumentos(
                    ts,
                    modelos_expr(argumentos@),
                    self@.atual,
                ),
            decreases ts.len() - self@.atual,
        {
            let e = self.expressao()?;
            proof {
                lema_push_expr(argumentos@, e);
                lema_exprs_wf_push(modelos_expr(argumentos@), e.modelo());
            }
            argumentos.push(e);
            if self.tipo_atual() == TokenKind::Virgula {
                self.avancar();
            } else {
                return Ok(argumentos);
            }
        }
    }
}

impl Parser {
    // ============================================================
    // Instruções
    // ============================================================

    /// Uma instrução, escolhida pelo token atual.
    fn instrucao(&mut self) -> (r: Result<Instrucao, NeoErro>)
        requires
            old(self).wf(),
        ensures
            final(self).wf(),
            leu_instr(
                old(self)@,
                final(self)@,
                r,
                p_instrucao(old(self)@.tokens, old(self)@.atual),
            ),
        decreases old(self)@.tokens.len() - old(self)@.atual, 19nat,
    {
        match self.tipo_atual() {
            TokenKind::Decimal | TokenKind::String | TokenKind::Boolean => self.declaracao(),
            TokenKind::Display => self.display(),
            TokenKind::If => self.if_instrucao(),
            TokenKind::While => self.while_instrucao(),
            TokenKind::Func => self.funcao(),
            TokenKind::Return => self.retorno(),
            TokenKind::Identificador => self.atribuicao(),
            _ => {
                let token = self.atual();
                let mut m = texto_de("Instrução inesperada '");
                anexar(&mut m, token.texto.as_slice());
                anexar_literal(&mut m, "'.");
                Err(NeoErro::Sintaxe { linha: token.linha, mensagem: m })
            },
        }
    }

    /// `tipo nome = expressão`.
    fn declaracao(&mut self) -> (r: Result<Instrucao, NeoErro>)
        requires
            old(self).wf(),
        ensures
            final(self).wf(),
            leu_instr(
                old(self)@,
                final(self)@,
                r,
                p_declaracao(old(self)@.tokens, old(self)@.atual),
            ),
        decreases old(self)@.tokens.len() - old(self)@.atual, 18nat,
    {
        let kind = self.tipo_atual();
        let linha = self.atual().linha;
        let tipo = tipo_exec(kind);
        self.avancar();
        let nome = self.consumir(TokenKind::Identificador)?;
        self.consumir(TokenKind::Igual)?;
        let valor = self.expressao()?;
        Ok(Instrucao::Declarar { tipo, nome: nome.texto, valor, linha })
    }

    /// `nome op expressão`, com `op` entre `=`, `+=`, `-=`, `*=`, `/=` e `%=`.
    fn atribuicao(&mut self) -> (r: Result<Instrucao, NeoErro>)
        requires
            old(self).wf(),
        ensures
            final(self).wf(),
            leu_instr(
                old(self)@,
                final(self)@,
                r,
                p_atribuicao(old(self)@.tokens, old(self)@.atual),
            ),
        decreases old(self)@.tokens.len() - old(self)@.atual, 18nat,
    {
        let nome = self.consumir(TokenKind::Identificador)?;
        let linha = nome.linha;
        let operador = match operador_exec(self.tipo_atual()) {
            None => {
                return Err(
                    NeoErro::Sintaxe {
                        linha,
                        mensagem: texto_de("Esperado '=' ou operador de atribuição."),
                    },
                );
            },
            Some(o) => o,
        };
        self.avancar();
        let valor = self.expressao()?;
        Ok(Instrucao::Atribuir { nome: nome.texto, operador, valor, linha })
    }

    /// `display expressão`.
    fn display(&mut self) -> (r: Result<Instrucao, NeoErro>)
        requires
            old(self).wf(),
        ensures
            final(self).wf(),
            leu_instr(
                old(self)@,
                final(self)@,
                r,
                p_display(old(self)@.tokens, old(self)@.atual),
            ),
        decreases old(self)@.tokens.len() - old(self)@.atual, 18nat,
    {
        let linha = self.atual().linha;
        self.consumir(TokenKind::Display)?;
        let valor = self.expressao()?;
        Ok(Instrucao::Display { valor, linha })
    }

    /// `return expressão`.
    fn retorno(&mut self) -> (r: Result<Instrucao, NeoErro>)
        requires
            old(self).wf(),
        ensures
            final(self).wf(),
            leu_instr(
                old(self)@,
                final(self)@,
                r,
                p_retorno(old(self)@.tokens, old(self)@.atual),
            ),
        decreases old(self)@.tokens.len() - old(self)@.atual, 18nat,
    {
        let linha = self.atual().linha;
        self.consumir(TokenKind::Return)?;
        let valor = self.expressao()?;
        Ok(Instrucao::Return { valor, linha })
    }

    /// `if condição ... [else ...] end`.
    fn if_instrucao(&mut self) -> (r: Result<Instrucao, NeoErro>)
        requires
            old(self).wf(),
        ensures
            final(self).wf(),
            leu_instr(old(self)@, final(self)@, r, p_if(old(self)@.tokens, old(self)@.atual)),
        decreases old(self)@.tokens.len() - old(self)@.atual, 18nat,
    {
        let linha = self.atual().linha;
        self.consumir(TokenKind::If)?;
        let condicao = self.expressao()?;
        let verdadeiro = self.bloco(true)?;
        let mut falso: Vec<Instrucao> = Vec::new();
        assert(modelos_instr(falso@) =~= Seq::<InstrM>::empty());
        if self.tipo_atual() == TokenKind::Else {
            self.avancar();
            falso = self.bloco(false)?;
        }
        self.consumir(TokenKind::End)?;
        Ok(Instrucao::If { condicao, verdadeiro, falso, linha })
    }

    /// `while condição ... end`.
    fn while_instrucao(&mut self) -> (r: Result<Instrucao, NeoErro>)
        requires
            old(self).wf(),
        ensures
            final(self).wf(),
            leu_instr(
                old(self)@,
                final(self)@,
                r,
                p_while(old(self)@.tokens, old(self)@.atual),
            ),
        decreases old(self)@.tokens.len() - old(self)@.atual, 18nat,
    {
        let linha = self.atual().linha;
        self.consumir(TokenKind::While)?;
        let condicao = self.expressao()?;
        let bloco = self.bloco(false)?;
        self.consumir(TokenKind::End)?;
        Ok(Instrucao::While { condicao, bloco, linha })
    }

    /// `func nome(parâmetros) ... end`.
    fn funcao(&mut self) -> (r: Result<Instrucao, NeoErro>)
        requires
            old(self).wf(),
        ensures
            final(self).wf(),
            leu_instr(
                old(self)@,
                final(self)@,
                r,
                p_funcao(old(self)@.tokens, old(self)@.atual),
            ),
        decreases old(self)@.tokens.len() - old(self)@.atual, 18nat,
    {
        let linha = self.atual().linha;
        self.consumir(TokenKind::Func)?;
        let nome = self.consumir(TokenKind::Identificador)?;
        self.consumir(TokenKind::AbrePar)?;
        let mut parametros: Vec<Vec<char>> = Vec::new();
        assert(modelos_nomes(parametros@) =~= Seq::<Seq<char>>::empty());
        if self.tipo_atual() != TokenKind::FechaPar {
            parametros = self.parametros()?;
        }
        self.consumir(TokenKind::FechaPar)?;
        let bloco = self.bloco(false)?;
        self.consumir(TokenKind::End)?;
        Ok(Instrucao::Funcao { nome: nome.texto, parametros, bloco, linha })
    }

    /// Os parâmetros de uma função, separados por vírgulas.
    fn parametros(&mut self) -> (r: Result<Vec<Vec<char>>, NeoErro>)
        requires
            old(self).wf(),
        ensures
            final(self).wf(),
            final(self)@.tokens == old(self)@.tokens,
            resultado_nomes(r, final(self)@.atual) == p_parametros(
                old(self)@.tokens,
                Seq::empty(),
                old(self)@.atual,
            ),
            r is Ok ==> final(self)@.atual > old(self)@.atual,
    {
        let ghost ts = self@.tokens;
        let ghost p0 = self@.atual;
        let mut parametros: Vec<Vec<char>> = Vec::new();
        assert(modelos_nomes(parametros@) =~= Seq::<Seq<char>>::empty());
        loop
            invariant
                self.wf(),
                self@.tokens == ts,
                ts == old(self)@.tokens,
                p0 == old(self)@.atual,
                self@.atual >= p0,
                parametros@.len() > 0 ==> self@.atual > p0,
                p_parametros(ts, Seq::empty(), p0) == p_parametros(
                    ts,
                    modelos_nomes(parametros@),
                    self@.atual,
                ),
            decreases ts.len() - self@.atual,
        {
            let parametro = self.consumir(TokenKind::Identificador)?;
            let ghost antes = parametros@;
            parametros.push(parametro.texto);
            assert(modelos_nomes(parametros@) =~= modelos_nomes(antes).push(parametro@.texto));
            if self.tipo_atual() == TokenKind::Virgula {
                self.avancar();
            } else {
                return Ok(parametros);
            }
        }
    }

    /// As instruções de um bloco, até `end`, o fim do código ou, se
    /// `com_else`, `else`.
    fn bloco(&mut self, com_else: bool) -> (r: Result<Vec<Instrucao>, NeoErro>)
        requires
            old(self).wf(),
        ensures
            final(self).wf(),
            final(self)@.tokens == old(self)@.tokens,
            resultado_bloco(r, final(self)@.atual) == p_bloco(
                old(self)@.tokens,
                Seq::empty(),
                old(self)@.atual,
                com_else,
            ),
            r matches Ok(v) ==> final(self)@.atual >= old(self)@.atual && instrs_wf(
                modelos_instr(v@),
            ),
        decreases old(self)@.tokens.len() - old(self)@.atual, 20nat,
    {
        let ghost ts = self@.tokens;
        let ghost p0 = self@.atual;
        let mut instrucoes: Vec<Instrucao> = Vec::new();
        assert(modelos_instr(instrucoes@) =~= Seq::<InstrM>::empty());
        while !fecha_exec(self.tipo_atual(), com_else)
            invariant
                self.wf(),
                self@.tokens == ts,
                ts == old(self)@.tokens,
                p0 == old(self)@.atual,
                self@.atual >= p0,
                instrs_wf(modelos_instr(instrucoes@)),
                p_bloco(ts, Seq::empty(), p0, com_else) == p_bloco(
                    ts,
                    modelos_instr(instrucoes@),
                    self@.atual,
                    com_else,
                ),
            decreases ts.len() - self@.atual,
        {
            let i = self.instrucao()?;
            proof {
                lema_push_instr(instrucoes@, i);
                lema_instrs_wf_push(modelos_instr(instrucoes@), i.modelo());
            }
            instrucoes.push(i);
        }
        Ok(instrucoes)
    }

    /// Lê o programa: as instruções até o fim do código.
    pub fn analisar(&mut self) -> (r: Result<Vec<Instrucao>, NeoErro>)
        requires
            old(self).wf(),
        ensures
            final(self).wf(),
            final(self)@.tokens == old(self)@.tokens,
            resultado_bloco(r, final(self)@.atual) == p_programa(
                old(self)@.tokens,
                Seq::empty(),
                old(self)@.atual,
            ),
            r matches Ok(v) ==> instrs_wf(modelos_instr(v@)),
    {
        let ghost ts = self@.tokens;
        let ghost p0 = self@.atual;
        let mut resultado: Vec<Instrucao> = Vec::new();
        assert(modelos_instr(resultado@) =~= Seq::<InstrM>::empty());
        while self.tipo_atual() != TokenKind::Fim
            invariant
                self.wf(),
                self@.tokens == ts,
                ts == old(self)@.tokens,
                p0 == old(self)@.atual,
                instrs_wf(modelos_instr(resultado@)),
                p_programa(ts, Seq::empty(), p0) == p_programa(
                    ts,
                    modelos_instr(resultado@),
                    self@.atual,
                ),
            decreases ts.len() - self@.atual,
        {
            let i = self.instrucao()?;
            proof {
                lema_push_instr(resultado@, i);
                lema_instrs_wf_push(modelos_instr(resultado@), i.modelo());
            }
            resultado.push(i);
        }
        Ok(resultado)
    }
}

} // verus!
