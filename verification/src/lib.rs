//! NeoCOBOL: uma linguagem simples com lexer, parser, análise semântica e
//! interpretador, cada etapa verificada contra um modelo matemático.
pub mod texto;
pub mod decimal;
pub mod valores;
pub mod ast;
pub mod tabela;
pub mod lexer;
pub mod gramatica;
pub mod parser;
pub mod semantico;
pub mod semantica;
pub mod runtime;
pub mod execucao;
pub mod leis;
pub mod tipagem;
pub mod comportamento;
