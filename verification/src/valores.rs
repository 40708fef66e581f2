//! Tipos, valores e erros da linguagem.
use vstd::prelude::*;
use crate::decimal::{Dec, DecimalModelo, decimal_texto, igual, texto_decimal, valor_igual};
use crate::texto::{anexar, anexar_literal, copiar, digitos, iguais, numero_texto, texto_de};

verus! {

// ================================================================
// Tipos
// ================================================================

/// Os tipos da linguagem.
#[derive(Clone, Copy, Debug, PartialEq, Eq, Structural)]
pub enum Tipo {
    Decimal,
    String,
    Boolean,
    Vazio,
}

/// O nome de um tipo nas mensagens.
pub open spec fn nome_tipo(t: Tipo) -> Seq<char> {
    match t {
        Tipo::Decimal => "decimal"@,
        Tipo::String => "string"@,
        Tipo::Boolean => "boolean"@,
        Tipo::Vazio => "vazio"@,
    }
}

impl Tipo {
    /// O nome do tipo: `decimal`, `string`, `boolean` ou `vazio`.
    pub fn nome(&self) -> (r: &'static str)
        ensures
            r@ == nome_tipo(*self),
    {
        match self {
            Tipo::Decimal => "decimal",
            Tipo::String => "string",
            Tipo::Boolean => "boolean",
            Tipo::Vazio => "vazio",
        }
    }

    /// O nome do tipo como vetor de caracteres.
    pub fn nome_texto(&self) -> (r: Vec<char>)
        ensures
            r@ == nome_tipo(*self),
    {
        texto_de(self.nome())
    }
}

// ================================================================
// Valores
// ================================================================

/// Um valor em tempo de execução.
#[derive(Debug)]
pub enum NeoValor {
    Decimal(Dec),
    String(Vec<char>),
    Boolean(bool),
    Vazio,
}

/// O modelo de um valor.
pub enum ValorModelo {
    Decimal(DecimalModelo),
    Texto(Seq<char>),
    Booleano(bool),
    Vazio,
}

impl View for NeoValor {
    type V = ValorModelo;

    open spec fn view(&self) -> ValorModelo {
        match self {
            NeoValor::Decimal(d) => ValorModelo::Decimal(d@),
            NeoValor::String(s) => ValorModelo::Texto(s@),
            NeoValor::Boolean(b) => ValorModelo::Booleano(*b),
            NeoValor::Vazio => ValorModelo::Vazio,
        }
    }
}

/// O tipo de um valor.
pub open spec fn tipo_valor(v: ValorModelo) -> Tipo {
    match v {
        ValorModelo::Decimal(_) => Tipo::Decimal,
        ValorModelo::Texto(_) => Tipo::String,
        ValorModelo::Booleano(_) => Tipo::Boolean,
        ValorModelo::Vazio => Tipo::Vazio,
    }
}

/// O texto de um valor, como `display` o escreve.
pub open spec fn texto_valor(v: ValorModelo) -> Seq<char> {
    match v {
        ValorModelo::Decimal(d) => texto_decimal(d),
        ValorModelo::Texto(s) => s,
        ValorModelo::Booleano(b) => if b {
            "true"@
        } else {
            "false"@
        },
        ValorModelo::Vazio => Seq::empty(),
    }
}

/// Igualdade de valores (`==` da linguagem): decimais por valor numérico,
/// textos e booleanos por conteúdo, `vazio` só igual a `vazio`; valores de
/// tipos diferentes nunca são iguais.
pub open spec fn valores_iguais(a: ValorModelo, b: ValorModelo) -> bool {
    match (a, b) {
        (ValorModelo::Decimal(x), ValorModelo::Decimal(y)) => valor_igual(x, y),
        (ValorModelo::Texto(x), ValorModelo::Texto(y)) => x == y,
        (ValorModelo::Booleano(x), ValorModelo::Booleano(y)) => x == y,
        (ValorModelo::Vazio, ValorModelo::Vazio) => true,
        _ => false,
    }
}

impl NeoValor {
    /// Os decimais guardados têm escala válida.
    pub open spec fn wf(&self) -> bool {
        match self {
            NeoValor::Decimal(d) => d.wf(),
            _ => true,
        }
    }

    /// O tipo do valor.
    pub fn tipo(&self) -> (r: Tipo)
        ensures
            r == tipo_valor(self@),
    {
        match self {
            NeoValor::Decimal(_) => Tipo::Decimal,
            NeoValor::String(_) => Tipo::String,
            NeoValor::Boolean(_) => Tipo::Boolean,
            NeoValor::Vazio => Tipo::Vazio,
        }
    }

    /// O texto do valor: o decimal escrito por `rust_decimal`, o próprio
    /// texto, `true`/`false`, ou texto vazio.
    pub fn texto(&self) -> (r: Vec<char>)
        requires
            self.wf(),
        ensures
            r@ == texto_valor(self@),
    {
        match self {
            NeoValor::Decimal(d) => decimal_texto(*d),
            NeoValor::String(s) => copiar(s.as_slice()),
            NeoValor::Boolean(b) => if *b {
                texto_de("true")
            } else {
                texto_de("false")
            },
            NeoValor::Vazio => Vec::new(),
        }
    }

    /// Uma cópia do valor.
    pub fn copiar(&self) -> (r: NeoValor)
        ensures
            r@ == self@,
            r.wf() == self.wf(),
    {
        match self {
            NeoValor::Decimal(d) => NeoValor::Decimal(*d),
            NeoValor::String(s) => NeoValor::String(copiar(s.as_slice())),
            NeoValor::Boolean(b) => NeoValor::Boolean(*b),
            NeoValor::Vazio => NeoValor::Vazio,
        }
    }

    /// `a == b` entre valores.
    pub fn igual(&self, outro: &NeoValor) -> (r: bool)
        requires
            self.wf(),
            outro.wf(),
        ensures
            r == valores_iguais(self@, outro@),
    {
        match (self, outro) {
            (NeoValor::Decimal(x), NeoValor::Decimal(y)) => igual(*x, *y),
            (NeoValor::String(x), NeoValor::String(y)) => iguais(x.as_slice(), y.as_slice()),
            (NeoValor::Boolean(x), NeoValor::Boolean(y)) => *x == *y,
            (NeoValor::Vazio, NeoValor::Vazio) => true,
            _ => false,
        }
    }
}

// ================================================================
// Erros
// ================================================================

/// Os erros da linguagem, com os códigos NEO.
#[derive(Debug)]
pub enum NeoErro {
    Lexico { linha: usize, mensagem: Vec<char> },
    Sintaxe { linha: usize, mensagem: Vec<char> },
    Tipo { linha: usize, esperado: Vec<char>, recebido: Vec<char> },
    Semantico { linha: usize, mensagem: Vec<char> },
    Runtime { linha: usize, mensagem: Vec<char> },
}

/// O modelo de um erro.
pub enum ErroModelo {
    Lexico { linha: nat, mensagem: Seq<char> },
    Sintaxe { linha: nat, mensagem: Seq<char> },
    Tipo { linha: nat, esperado: Seq<char>, recebido: Seq<char> },
    Semantico { linha: nat, mensagem: Seq<char> },
    Runtime { linha: nat, mensagem: Seq<char> },
}

impl View for NeoErro {
    type V = ErroModelo;

    open spec fn view(&self) -> ErroModelo {
        match self {
            NeoErro::Lexico { linha, mensagem } => ErroModelo::Lexico {
                linha: *linha as nat,
                mensagem: mensagem@,
            },
            NeoErro::Sintaxe { linha, mensagem } => ErroModelo::Sintaxe {
                linha: *linha as nat,
                mensagem: mensagem@,
            },
            NeoErro::Tipo { linha, esperado, recebido } => ErroModelo::Tipo {
                linha: *linha as nat,
                esperado: esperado@,
                recebido: recebido@,
            },
            NeoErro::Semantico { linha, mensagem } => ErroModelo::Semantico {
                linha: *linha as nat,
                mensagem: mensagem@,
            },
            NeoErro::Runtime { linha, mensagem } => ErroModelo::Runtime {
                linha: *linha as nat,
                mensagem: mensagem@,
            },
        }
    }
}

/// A mensagem completa de um erro, com o código NEO.
pub open spec fn texto_erro(e: ErroModelo) -> Seq<char> {
    match e {
        ErroModelo::Lexico { linha, mensagem } => "NEO1001 - Erro léxico na linha "@ + digitos(
            linha,
        ) + ": "@ + mensagem,
        ErroModelo::Sintaxe { linha, mensagem } => "NEO1002 - Erro de sintaxe na linha "@
            + digitos(linha) + ": "@ + mensagem,
        ErroModelo::Tipo { linha, esperado, recebido } => "NEO2001 - Erro de tipo na linha "@
            + digitos(linha) + ": esperado "@ + esperado + ", recebido "@ + recebido,
        ErroModelo::Semantico { linha, mensagem } => "NEO2002 - Erro semântico na linha "@
            + digitos(linha) + ": "@ + mensagem,
        ErroModelo::Runtime { linha, mensagem } => if linha == 0 {
            "NEO3001 - Erro de execução: "@ + mensagem
        } else {
            "NEO3001 - Erro de execução na linha "@ + digitos(linha) + ": "@ + mensagem
        },
    }
}

impl NeoErro {
    /// A mensagem do erro como o usuário a vê.
    pub fn texto(&self) -> (r: Vec<char>)
        ensures
            r@ == texto_erro(self@),
    {
        let mut r: Vec<char> = Vec::new();
        match self {
            NeoErro::Lexico { linha, mensagem } => {
                anexar_literal(&mut r, "NEO1001 - Erro léxico na linha ");
                anexar(&mut r, numero_texto(*linha).as_slice());
                anexar_literal(&mut r, ": ");
                anexar(&mut r, mensagem.as_slice());
            },
            NeoErro::Sintaxe { linha, mensagem } => {
                anexar_literal(&mut r, "NEO1002 - Erro de sintaxe na linha ");
                anexar(&mut r, numero_texto(*linha).as_slice());
                anexar_literal(&mut r, ": ");
                anexar(&mut r, mensagem.as_slice());
            },
            NeoErro::Tipo { linha, esperado, recebido } => {
                anexar_literal(&mut r, "NEO2001 - Erro de tipo na linha ");
                anexar(&mut r, numero_texto(*linha).as_slice());
                anexar_literal(&mut r, ": esperado ");
                anexar(&mut r, esperado.as_slice());
                anexar_literal(&mut r, ", recebido ");
                anexar(&mut r, recebido.as_slice());
            },
            NeoErro::Semantico { linha, mensagem } => {
                anexar_literal(&mut r, "NEO2002 - Erro semântico na linha ");
                anexar(&mut r, numero_texto(*linha).as_slice());
                anexar_literal(&mut r, ": ");
                anexar(&mut r, mensagem.as_slice());
            },
            NeoErro::Runtime { linha, mensagem } => {
                if *linha == 0 {
                    anexar_literal(&mut r, "NEO3001 - Erro de execução: ");
                    anexar(&mut r, mensagem.as_slice());
                } else {
                    anexar_literal(&mut r, "NEO3001 - Erro de execução na linha ");
                    anexar(&mut r, numero_texto(*linha).as_slice());
                    anexar_literal(&mut r, ": ");
                    anexar(&mut r, mensagem.as_slice());
                }
            },
        }
        r
    }
}

} // verus!
