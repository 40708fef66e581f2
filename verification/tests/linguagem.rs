use neocobol::ast::{Expressao, Instrucao};
use neocobol::execucao::executar_codigo;
use neocobol::lexer::{lex, Token, TokenKind};
use neocobol::parser::Parser;
use neocobol::runtime::Runtime;
use neocobol::semantico::AnalisadorSemantico;
use neocobol::valores::{NeoErro, Tipo};

fn texto(v: &[char]) -> String {
    v.iter().collect()
}

fn chars(s: &str) -> Vec<char> {
    s.chars().collect()
}

fn tokens(codigo: &str) -> Vec<Token> {
    lex(codigo).expect("o lexer deveria aceitar o código")
}

fn tipos(ts: &[Token]) -> Vec<TokenKind> {
    ts.iter().map(|t| t.kind).collect()
}

fn programa(codigo: &str) -> Vec<Instrucao> {
    let mut parser = Parser::novo(tokens(codigo));
    parser.analisar().expect("o parser deveria aceitar o código")
}

fn erro_de_sintaxe(codigo: &str) -> (usize, String) {
    let mut parser = Parser::novo(tokens(codigo));
    match parser.analisar() {
        Err(NeoErro::Sintaxe { linha, mensagem }) => (linha, texto(&mensagem)),
        outro => panic!("esperava erro de sintaxe, veio {:?}", outro),
    }
}

fn analise(codigo: &str) -> Result<(), NeoErro> {
    let p = programa(codigo);
    let mut a = AnalisadorSemantico::novo();
    a.analisar(&p)
}

/// As linhas escritas por `display` e o texto do erro, se houve.
fn rodar(codigo: &str) -> (Vec<String>, Option<String>) {
    let r = executar_codigo(codigo, &|_l: Vec<char>| {});
    let linhas: Vec<String> = r.linhas.iter().map(|l| texto(l)).collect();
    (linhas, r.erro.map(|e| texto(&e.texto())))
}

/// Só as linhas do programa, sem as de progresso e sem a de sucesso.
fn saida(codigo: &str) -> Vec<String> {
    let (linhas, erro) = rodar(codigo);
    assert_eq!(erro, None, "linhas: {:?}", linhas);
    assert!(linhas.len() >= 5);
    linhas[3..linhas.len() - 2].to_vec()
}

// ----------------------------------------------------------------
// Lexer
// ----------------------------------------------------------------

#[test]
fn lex_declaracao() {
    let ts = tokens("decimal x = 10");
    assert_eq!(
        tipos(&ts),
        vec![
            TokenKind::Decimal,
            TokenKind::Identificador,
            TokenKind::Igual,
            TokenKind::Numero,
            TokenKind::Fim
        ]
    );
    assert_eq!(texto(&ts[1].texto), "x");
    assert_eq!(texto(&ts[3].texto), "10");
    assert_eq!(ts[0].linha, 1);
}

#[test]
fn lex_fim_na_linha_seguinte() {
    let ts = tokens("display 1\n\ndisplay 2");
    let fim = ts.last().unwrap();
    assert_eq!(fim.kind, TokenKind::Fim);
    assert_eq!(fim.linha, 4);
    assert_eq!(ts[2].linha, 3);
}

#[test]
fn lex_codigo_vazio() {
    let ts = tokens("");
    assert_eq!(tipos(&ts), vec![TokenKind::Fim]);
    assert_eq!(ts[0].linha, 1);
}

#[test]
fn lex_comentario_e_espacos() {
    let ts = tokens("# um comentário\n\tdisplay   1 # fim\n");
    assert_eq!(tipos(&ts), vec![TokenKind::Display, TokenKind::Numero, TokenKind::Fim]);
    assert_eq!(ts[0].linha, 2);
}

#[test]
fn lex_operadores() {
    let ts = tokens("+= -= *= /= %= == != >= <= > < + - * / % = ( ) ,");
    assert_eq!(
        tipos(&ts),
        vec![
            TokenKind::MaisIgual,
            TokenKind::MenosIgual,
            TokenKind::MultiplicaIgual,
            TokenKind::DivideIgual,
            TokenKind::ModuloIgual,
            TokenKind::IgualIgual,
            TokenKind::Diferente,
            TokenKind::MaiorIgual,
            TokenKind::MenorIgual,
            TokenKind::Maior,
            TokenKind::Menor,
            TokenKind::Mais,
            TokenKind::Menos,
            TokenKind::Multiplica,
            TokenKind::Divide,
            TokenKind::Modulo,
            TokenKind::Igual,
            TokenKind::AbrePar,
            TokenKind::FechaPar,
            TokenKind::Virgula,
            TokenKind::Fim
        ]
    );
}

#[test]
fn lex_palavras_chave_e_nomes_acentuados() {
    let ts = tokens("if else end while func return and or not true false string boolean ação");
    assert_eq!(
        tipos(&ts),
        vec![
            TokenKind::If,
            TokenKind::Else,
            TokenKind::End,
            TokenKind::While,
            TokenKind::Func,
            TokenKind::Return,
            TokenKind::And,
            TokenKind::Or,
            TokenKind::Not,
            TokenKind::Boolean,
            TokenKind::Boolean,
            TokenKind::String,
            TokenKind::Boolean,
            TokenKind::Identificador,
            TokenKind::Fim
        ]
    );
    assert_eq!(texto(&ts[13].texto), "ação");
}

#[test]
fn lex_texto_e_numero_decimal() {
    let ts = tokens("display \"olá mundo\" 3.25");
    assert_eq!(ts[1].kind, TokenKind::Texto);
    assert_eq!(texto(&ts[1].texto), "olá mundo");
    assert_eq!(ts[2].kind, TokenKind::Numero);
    assert_eq!(texto(&ts[2].texto), "3.25");
}

fn erro_lexico(codigo: &str) -> (usize, String) {
    match lex(codigo) {
        Err(NeoErro::Lexico { linha, mensagem }) => (linha, texto(&mensagem)),
        outro => panic!("esperava erro léxico, veio {:?}", outro),
    }
}

#[test]
fn lex_string_nao_terminada() {
    assert_eq!(erro_lexico("display 1\ndisplay \"abc"), (2, "String não terminada.".to_string()));
}

#[test]
fn lex_dois_pontos_decimais() {
    assert_eq!(
        erro_lexico("decimal x = 1.2.3"),
        (1, "Número possui mais de um ponto decimal.".to_string())
    );
}

#[test]
fn lex_exclamacao_sozinha() {
    assert_eq!(erro_lexico("if a ! b"), (1, "Use != para diferença.".to_string()));
}

#[test]
fn lex_caractere_desconhecido() {
    assert_eq!(erro_lexico("\n\ndisplay @"), (3, "Caractere desconhecido '@'.".to_string()));
}

// ----------------------------------------------------------------
// Parser
// ----------------------------------------------------------------

#[test]
fn parser_atual_e_avancar_param_no_fim() {
    let mut p = Parser::novo(tokens("display 1"));
    assert_eq!(p.atual().kind, TokenKind::Display);
    p.avancar();
    assert_eq!(p.atual().kind, TokenKind::Numero);
    p.avancar();
    assert_eq!(p.atual().kind, TokenKind::Fim);
    p.avancar();
    p.avancar();
    assert_eq!(p.atual().kind, TokenKind::Fim);
}

#[test]
fn parser_consumir() {
    let mut p = Parser::novo(tokens("display 1"));
    let t = p.consumir(TokenKind::Display).unwrap();
    assert_eq!(texto(&t.texto), "display");
    match p.consumir(TokenKind::Identificador) {
        Err(NeoErro::Sintaxe { linha, mensagem }) => {
            assert_eq!(linha, 1);
            assert_eq!(texto(&mensagem), "Esperado Identificador, encontrado '1'.");
        }
        outro => panic!("{:?}", outro),
    }
    assert_eq!(p.atual().kind, TokenKind::Numero);
}

#[test]
fn parser_precedencia() {
    let p = programa("display 1 + 2 * 3 - 4");
    match &p[0] {
        Instrucao::Display { valor: Expressao::Subtracao(a, b), linha: 1 } => {
            assert!(matches!(**b, Expressao::Decimal(_)));
            match &**a {
                Expressao::Soma(x, y) => {
                    assert!(matches!(**x, Expressao::Decimal(_)));
                    assert!(matches!(**y, Expressao::Multiplicacao(_, _)));
                }
                outro => panic!("{:?}", outro),
            }
        }
        outro => panic!("{:?}", outro),
    }
}

#[test]
fn parser_logica_e_comparacao() {
    let p = programa("display not a == b or c and d < -e");
    match &p[0] {
        Instrucao::Display { valor: Expressao::Or(esq, dir), .. } => {
            match &**esq {
                Expressao::Igual(x, _) => assert!(matches!(**x, Expressao::Not(_))),
                outro => panic!("{:?}", outro),
            }
            match &**dir {
                Expressao::And(_, d) => match &**d {
                    Expressao::Menor(_, n) => assert!(matches!(**n, Expressao::Negativo(_))),
                    outro => panic!("{:?}", outro),
                },
                outro => panic!("{:?}", outro),
            }
        }
        outro => panic!("{:?}", outro),
    }
}

#[test]
fn parser_funcao_chamada_e_blocos() {
    let p = programa(
        "func soma(a, b)\nreturn a + b\nend\nif soma(1, 2) > 2\ndisplay \"sim\"\nelse\ndisplay \"não\"\nend\nwhile false\nend",
    );
    assert_eq!(p.len(), 3);
    match &p[0] {
        Instrucao::Funcao { nome, parametros, bloco, linha } => {
            assert_eq!(texto(nome), "soma");
            assert_eq!(parametros.len(), 2);
            assert_eq!(texto(&parametros[1]), "b");
            assert_eq!(bloco.len(), 1);
            assert_eq!(*linha, 1);
        }
        outro => panic!("{:?}", outro),
    }
    match &p[1] {
        Instrucao::If { condicao: Expressao::Maior(c, _), verdadeiro, falso, linha } => {
            match &**c {
                Expressao::Chamada { nome, argumentos } => {
                    assert_eq!(texto(nome), "soma");
                    assert_eq!(argumentos.len(), 2);
                }
                outro => panic!("{:?}", outro),
            }
            assert_eq!(verdadeiro.len(), 1);
            assert_eq!(falso.len(), 1);
            assert_eq!(*linha, 4);
        }
        outro => panic!("{:?}", outro),
    }
    assert!(matches!(&p[2], Instrucao::While { bloco, linha: 9, .. } if bloco.is_empty()));
}

#[test]
fn parser_atribuicoes_compostas() {
    let p = programa("x += 1\nx -= 1\nx *= 1\nx /= 1\nx %= 1\nx = 1");
    assert_eq!(p.len(), 6);
    assert!(p.iter().all(|i| matches!(i, Instrucao::Atribuir { .. })));
}

#[test]
fn parser_declaracao_sem_nome() {
    assert_eq!(
        erro_de_sintaxe("decimal = 1"),
        (1, "Esperado Identificador, encontrado '='.".to_string())
    );
}

#[test]
fn parser_atribuicao_sem_operador() {
    assert_eq!(
        erro_de_sintaxe("x 1"),
        (1, "Esperado '=' ou operador de atribuição.".to_string())
    );
}

#[test]
fn parser_instrucao_inesperada() {
    assert_eq!(erro_de_sintaxe("end"), (1, "Instrução inesperada 'end'.".to_string()));
}

#[test]
fn parser_expressao_inesperada_no_fim() {
    assert_eq!(erro_de_sintaxe("display"), (2, "Expressão inesperada ''.".to_string()));
}

#[test]
fn parser_if_sem_end() {
    assert_eq!(
        erro_de_sintaxe("if true\ndisplay 1"),
        (3, "Esperado End, encontrado ''.".to_string())
    );
}

#[test]
fn parser_parenteses_sem_fechar() {
    assert_eq!(
        erro_de_sintaxe("display (1 + 2"),
        (2, "Esperado FechaPar, encontrado ''.".to_string())
    );
}

// ----------------------------------------------------------------
// Análise semântica
// ----------------------------------------------------------------

fn erro_semantico(codigo: &str) -> (usize, String) {
    match analise(codigo) {
        Err(NeoErro::Semantico { linha, mensagem }) => (linha, texto(&mensagem)),
        outro => panic!("esperava erro semântico, veio {:?}", outro),
    }
}

fn erro_de_tipo(codigo: &str) -> (usize, String, String) {
    match analise(codigo) {
        Err(NeoErro::Tipo { linha, esperado, recebido }) => {
            (linha, texto(&esperado), texto(&recebido))
        }
        outro => panic!("esperava erro de tipo, veio {:?}", outro),
    }
}

#[test]
fn analise_aceita_programa_valido() {
    assert!(analise("decimal x = 1\nx += 2\nif x > 1\nstring s = \"a\"\nend\ndisplay x").is_ok());
}

#[test]
fn analise_variavel_repetida() {
    assert_eq!(
        erro_semantico("decimal x = 1\ndecimal x = 2"),
        (2, "A variável 'x' já foi declarada neste escopo.".to_string())
    );
}

#[test]
fn analise_variavel_em_escopo_interno_pode_repetir() {
    assert!(analise("decimal x = 1\nif true\ndecimal x = 2\nend").is_ok());
}

#[test]
fn analise_variavel_do_bloco_nao_existe_depois() {
    assert_eq!(
        erro_semantico("if true\ndecimal y = 2\nend\ny = 3"),
        (4, "Variável 'y' não existe.".to_string())
    );
}

#[test]
fn analise_variavel_inexistente_em_expressao() {
    assert_eq!(erro_semantico("display z"), (0, "Variável 'z' não existe.".to_string()));
}

#[test]
fn analise_tipo_da_declaracao() {
    assert_eq!(
        erro_de_tipo("\ndecimal x = \"a\""),
        (2, "decimal".to_string(), "string".to_string())
    );
}

#[test]
fn analise_atribuicao_composta_exige_decimais() {
    assert_eq!(
        erro_de_tipo("string s = \"a\"\ns += \"b\""),
        (2, "decimal".to_string(), "string e string".to_string())
    );
}

#[test]
fn analise_erro_de_tipo_no_display_leva_a_linha() {
    assert_eq!(
        erro_de_tipo("\n\ndisplay 1 + \"a\""),
        (
            3,
            "decimal + decimal ou string + string".to_string(),
            "decimal + string".to_string()
        )
    );
}

#[test]
fn analise_erro_de_tipo_em_expressao_leva_linha_zero() {
    assert_eq!(
        erro_de_tipo("boolean b = 1 < true"),
        (0, "dois valores decimal".to_string(), "decimal e boolean".to_string())
    );
}

#[test]
fn analise_condicao_do_if() {
    assert_eq!(
        erro_de_tipo("if 1\nend"),
        (1, "boolean".to_string(), "decimal".to_string())
    );
}

#[test]
fn analise_funcao_repetida() {
    assert_eq!(
        erro_semantico("func f()\nend\nfunc f()\nend"),
        (3, "A função 'f' já foi declarada.".to_string())
    );
}

#[test]
fn analise_funcao_inexistente_e_aridade() {
    assert_eq!(erro_semantico("display g()"), (0, "Função 'g' não existe.".to_string()));
    assert_eq!(
        erro_semantico("func f(a)\nend\ndisplay f(1, 2)"),
        (0, "Função 'f' espera 1 argumento(s), mas recebeu 2.".to_string())
    );
}

#[test]
fn analise_chamada_tem_tipo_vazio() {
    assert_eq!(
        erro_de_tipo("func f()\nreturn 1\nend\ndecimal x = f()"),
        (4, "decimal".to_string(), "vazio".to_string())
    );
}

#[test]
fn analisador_escopos() {
    let mut a = AnalisadorSemantico::novo();
    assert!(a.analisar(&programa("decimal x = 1")).is_ok());
    assert_eq!(a.buscar_variavel(&chars("x")), Some(Tipo::Decimal));
    a.entrar_escopo();
    assert!(a.analisar(&programa("string x = \"a\"")).is_ok());
    assert_eq!(a.buscar_variavel(&chars("x")), Some(Tipo::String));
    a.sair_escopo();
    assert_eq!(a.buscar_variavel(&chars("x")), Some(Tipo::Decimal));
    assert_eq!(a.buscar_variavel(&chars("y")), None);
}

// ----------------------------------------------------------------
// Execução
// ----------------------------------------------------------------

#[test]
fn execucao_completa_com_linhas_de_progresso() {
    let (linhas, erro) = rodar("decimal x = 10\nx += 5\ndisplay x");
    assert_eq!(erro, None);
    assert_eq!(
        linhas,
        vec![
            "Lexer: 10 tokens.",
            "Parser: AST construída.",
            "Semântica: programa válido.",
            "15",
            "",
            "Programa executado com sucesso."
        ]
    );
}

#[test]
fn execucao_para_no_erro_lexico() {
    let (linhas, erro) = rodar("display @");
    assert!(linhas.is_empty());
    assert_eq!(
        erro,
        Some("NEO1001 - Erro léxico na linha 1: Caractere desconhecido '@'.".to_string())
    );
}

#[test]
fn execucao_para_no_erro_de_sintaxe() {
    let (linhas, erro) = rodar("display");
    assert_eq!(linhas, vec!["Lexer: 2 tokens."]);
    assert_eq!(
        erro,
        Some("NEO1002 - Erro de sintaxe na linha 2: Expressão inesperada ''.".to_string())
    );
}

#[test]
fn execucao_para_na_analise() {
    let (linhas, erro) = rodar("display y");
    assert_eq!(linhas, vec!["Lexer: 3 tokens.", "Parser: AST construída."]);
    assert_eq!(
        erro,
        Some("NEO2002 - Erro semântico na linha 0: Variável 'y' não existe.".to_string())
    );
}

#[test]
fn execucao_divisao_por_zero_mantem_a_saida_anterior() {
    let (linhas, erro) = rodar("display 1\ndecimal x = 1 / 0\ndisplay 2");
    assert_eq!(linhas[3..].to_vec(), vec!["1"]);
    assert_eq!(erro, Some("NEO3001 - Erro de execução: Divisão por zero.".to_string()));
}

#[test]
fn execucao_modulo_por_zero_com_linha() {
    let (_, erro) = rodar("decimal x = 5\n\nx %= 0");
    assert_eq!(
        erro,
        Some("NEO3001 - Erro de execução na linha 3: Módulo por zero.".to_string())
    );
}

#[test]
fn execucao_estouro_decimal() {
    let (_, erro) = rodar("decimal x = 79228162514264337593543950335\nx += 1");
    assert_eq!(
        erro,
        Some("NEO3001 - Erro de execução na linha 2: Resultado decimal fora do intervalo.".to_string())
    );
}

#[test]
fn execucao_aritmetica_decimal() {
    assert_eq!(
        saida("display 0.1 + 0.2\ndisplay 1.5 * 2\ndisplay 5 - 7\ndisplay 10 / 4\ndisplay 7 % 3\ndisplay 2.50\ndisplay -(3)"),
        vec!["0.3", "3.0", "-2", "2.50", "1", "2.50", "-3"]
    );
}

#[test]
fn execucao_comparacoes() {
    assert_eq!(
        saida("display 1 < 2\ndisplay 2 > 3\ndisplay 1.0 == 1\ndisplay 2 >= 2\ndisplay 3 <= 2\ndisplay \"a\" != \"b\""),
        vec!["true", "false", "true", "true", "false", "true"]
    );
}

#[test]
fn execucao_textos_e_interpolacao() {
    assert_eq!(
        saida("string nome = \"Ana\"\ndecimal idade = 30\ndisplay \"Olá, \" + nome\ndisplay \"{nome} tem {idade} anos\""),
        vec!["Olá, Ana", "Ana tem 30 anos"]
    );
}

#[test]
fn execucao_if_else() {
    assert_eq!(
        saida("decimal x = 3\nif x > 5\ndisplay \"grande\"\nelse\ndisplay \"pequeno\"\nend"),
        vec!["pequeno"]
    );
}

#[test]
fn execucao_while() {
    assert_eq!(
        saida("decimal i = 0\nwhile i < 3\ni += 1\ndisplay i\nend\ndisplay \"fim\""),
        vec!["1", "2", "3", "fim"]
    );
}

#[test]
fn execucao_funcao_com_retorno() {
    assert_eq!(
        saida("func soma(a, b)\nreturn a + b\nend\ndisplay soma(2, 3)\ndisplay soma(\"x\", \"y\")"),
        vec!["5", "xy"]
    );
}

#[test]
fn execucao_funcao_sem_retorno_da_vazio() {
    assert_eq!(saida("func f()\ndisplay \"dentro\"\nend\ndisplay f()"), vec!["dentro", ""]);
}

#[test]
fn execucao_curto_circuito() {
    assert_eq!(
        saida("if false and 1 / 0 == 1\ndisplay \"a\"\nelse\ndisplay \"b\"\nend\ndisplay true or 1 / 0 == 1"),
        vec!["b", "true"]
    );
}

#[test]
fn execucao_atribuicao_composta_como_operacao() {
    assert_eq!(
        saida("decimal x = 10\ndecimal y = 10\nx -= 3\ny = y - 3\ndisplay x == y\nx *= 4\ndisplay x\nx /= 8\ndisplay x"),
        vec!["true", "28", "3.50"]
    );
}

#[test]
fn execucao_escopos_de_bloco() {
    assert_eq!(
        saida("decimal x = 1\nif true\ndecimal y = 2\nx = x + y\nend\ndisplay x"),
        vec!["3"]
    );
}

#[test]
fn execucao_erro_de_tipo_dentro_de_funcao() {
    let (_, erro) = rodar("func f()\nreturn 1 + \"a\"\nend\ndisplay f()");
    assert_eq!(
        erro,
        Some("NEO2001 - Erro de tipo na linha 2: esperado decimal + decimal ou string + string, recebido decimal + string".to_string())
    );
}

#[test]
fn runtime_direto() {
    let p = programa("decimal x = 2\ndisplay x * x");
    let mut r = Runtime::novo();
    assert!(r.executar(&|_l: Vec<char>| {}, &p).is_ok());
    let linhas: Vec<String> = r.saida().iter().map(|l| texto(l)).collect();
    assert_eq!(linhas, vec!["4"]);
    assert_eq!(r.encontrar_escopo(&chars("x")), Some(0));
    assert_eq!(texto(&r.interpolar(&chars("x={x}"))), "x=2");
}

// ----------------------------------------------------------------
// Tipos e erros
// ----------------------------------------------------------------

#[test]
fn nomes_dos_tipos() {
    assert_eq!(Tipo::Decimal.nome(), "decimal");
    assert_eq!(Tipo::String.nome(), "string");
    assert_eq!(Tipo::Boolean.nome(), "boolean");
    assert_eq!(Tipo::Vazio.nome(), "vazio");
}

#[test]
fn textos_dos_erros() {
    let e = NeoErro::Tipo { linha: 7, esperado: chars("decimal"), recebido: chars("string") };
    assert_eq!(
        texto(&e.texto()),
        "NEO2001 - Erro de tipo na linha 7: esperado decimal, recebido string"
    );
    let e = NeoErro::Runtime { linha: 0, mensagem: chars("falhou") };
    assert_eq!(texto(&e.texto()), "NEO3001 - Erro de execução: falhou");
    let e = NeoErro::Semantico { linha: 12, mensagem: chars("m") };
    assert_eq!(texto(&e.texto()), "NEO2002 - Erro semântico na linha 12: m");
}

// ----------------------------------------------------------------
// Propriedades em valores concretos
// ----------------------------------------------------------------

#[test]
fn lei_parser_para_no_fim() {
    let mut p = Parser::novo(tokens("decimal x = 1\ndisplay x"));
    assert_eq!(p.analisar().unwrap().len(), 2);
    assert_eq!(p.atual().kind, TokenKind::Fim);
}

#[test]
fn lei_igualdade_entre_escalas() {
    assert_eq!(
        saida("display 1.0 == 1\ndisplay 1 == 1.00\ndisplay 1.0 == 1.00\ndisplay 1 == 1.01"),
        vec!["true", "true", "true", "false"]
    );
}

#[test]
fn lei_tricotomia_em_exemplos() {
    assert_eq!(
        saida("display 1 < 2\ndisplay 1 == 2\ndisplay 1 > 2\ndisplay 2 < 2\ndisplay 2 == 2.0\ndisplay 2 > 2\ndisplay 3 <= 2\ndisplay 3 >= 2"),
        vec!["true", "false", "false", "false", "true", "false", "false", "true"]
    );
}

#[test]
fn lei_interpolacao_sem_marcador() {
    assert_eq!(
        saida("decimal x = 1\ndisplay \"x fica x\"\ndisplay \"{x} e {y}\""),
        vec!["x fica x", "1 e {y}"]
    );
}

#[test]
fn lei_atribuicao_nao_muda_o_tipo() {
    let p = programa("decimal x = 1\nx = \"a\"");
    let mut r = Runtime::novo();
    match r.executar(&|_l: Vec<char>| {}, &p) {
        Err(NeoErro::Tipo { linha, esperado, recebido }) => {
            assert_eq!(linha, 2);
            assert_eq!(texto(&esperado), "decimal");
            assert_eq!(texto(&recebido), "string");
        }
        outro => panic!("{:?}", outro),
    }
}

#[test]
fn lei_string_mais_igual_concatena_na_execucao() {
    let p = programa("string s = \"a\"\ns += \"b\"\ndisplay s");
    let mut r = Runtime::novo();
    assert!(r.executar(&|_l: Vec<char>| {}, &p).is_ok());
    assert_eq!(texto(&r.saida()[0]), "ab");
}

#[test]
fn lei_programa_aceito_sem_chamadas_so_falha_em_conta() {
    let (linhas, erro) = rodar("decimal d = 0\nwhile d < 2\nd += 1\nend\ndisplay 10 / (d - 2)");
    assert_eq!(linhas.len(), 3);
    assert_eq!(erro, Some("NEO3001 - Erro de execução na linha 5: Divisão por zero.".to_string()));
}

#[test]
fn parser_cursor_em_lista_sem_fim() {
    let t = |kind: TokenKind, s: &str| Token { kind, texto: chars(s), linha: 1 };
    let mut p = Parser::novo(vec![t(TokenKind::Identificador, "x"), t(TokenKind::Igual, "=")]);
    assert_eq!(p.atual().kind, TokenKind::Identificador);
    assert!(p.consumir(TokenKind::Identificador).is_ok());
    assert_eq!(p.atual().kind, TokenKind::Igual);
    p.avancar();
    assert_eq!(p.atual().kind, TokenKind::Igual);
    match p.consumir(TokenKind::Numero) {
        Err(NeoErro::Sintaxe { linha, mensagem }) => {
            assert_eq!(linha, 1);
            assert_eq!(texto(&mensagem), "Esperado Numero, encontrado '='.");
        }
        outro => panic!("{:?}", outro),
    }
    assert_eq!(p.atual().kind, TokenKind::Igual);
}

#[test]
fn parser_consumir_errado_nao_avanca() {
    let mut p = Parser::novo(tokens("x = 1"));
    assert!(p.consumir(TokenKind::Identificador).is_ok());
    match p.consumir(TokenKind::Numero) {
        Err(NeoErro::Sintaxe { linha, mensagem }) => {
            assert_eq!(linha, 1);
            assert_eq!(texto(&mensagem), "Esperado Numero, encontrado '='.");
        }
        outro => panic!("{:?}", outro),
    }
    assert_eq!(p.atual().kind, TokenKind::Igual);
}

#[test]
fn analise_erro_nao_muda_os_escopos() {
    let mut a = AnalisadorSemantico::novo();
    assert!(a.analisar(&programa("decimal x = 1")).is_ok());
    let p = programa("decimal y = \"a\"\ndecimal x = 2\nx = \"b\"");
    for instrucao in &p {
        assert!(a.instruacao(instrucao).is_err());
        assert_eq!(a.buscar_variavel(&chars("x")), Some(Tipo::Decimal));
        assert_eq!(a.buscar_variavel(&chars("y")), None);
    }
}

#[test]
fn analise_fechar_bloco_restaura_escopos() {
    let mut a = AnalisadorSemantico::novo();
    assert!(a.analisar(&programa("decimal x = 1")).is_ok());
    a.entrar_escopo();
    assert_eq!(a.buscar_variavel(&chars("x")), Some(Tipo::Decimal));
    for instrucao in &programa("string x = \"a\"\nboolean z = true") {
        assert!(a.instruacao(instrucao).is_ok());
    }
    assert_eq!(a.buscar_variavel(&chars("x")), Some(Tipo::String));
    a.sair_escopo();
    assert_eq!(a.buscar_variavel(&chars("x")), Some(Tipo::Decimal));
    assert_eq!(a.buscar_variavel(&chars("z")), None);
}

#[test]
fn lexer_um_so_fim() {
    let ts = tokens("if a\ndisplay 1\nend\n");
    let fins = ts.iter().filter(|t| t.kind == TokenKind::Fim).count();
    assert_eq!(fins, 1);
    assert_eq!(ts.last().unwrap().kind, TokenKind::Fim);
}

#[test]
fn execucao_entrega_cada_linha_na_hora() {
    let escritas = std::cell::RefCell::new(Vec::new());
    let r = executar_codigo("display 1\ndisplay 1 / 0", &|l: Vec<char>| {
        escritas.borrow_mut().push(texto(&l))
    });
    let linhas: Vec<String> = r.linhas.iter().map(|l| texto(l)).collect();
    assert_eq!(*escritas.borrow(), linhas);
    assert_eq!(
        linhas,
        vec!["Lexer: 7 tokens.", "Parser: AST construída.", "Semântica: programa válido.", "1"]
    );
    assert!(r.erro.is_some());
}

#[test]
fn lei_comentario_ignora_o_resto_da_linha() {
    let base = tokens("decimal x = 1");
    let com = tokens("decimal x = 1 #@ ! \"");
    assert_eq!(tipos(&base), tipos(&com));
    assert_eq!(base.len(), com.len());
    for (a, b) in base.iter().zip(com.iter()) {
        assert_eq!(texto(&a.texto), texto(&b.texto));
        assert_eq!(a.linha, b.linha);
    }
}

#[test]
fn lexer_espacos_unicode() {
    let ts = tokens("display\u{a0}1\u{3000}+\u{2009}2");
    assert_eq!(
        tipos(&ts),
        vec![TokenKind::Display, TokenKind::Numero, TokenKind::Mais, TokenKind::Numero, TokenKind::Fim]
    );
}

#[test]
fn lei_linhas_dos_tokens_em_ordem() {
    let ts = tokens("decimal a = 1\n\nif a > 0\ndisplay a\nend");
    let linhas: Vec<usize> = ts.iter().map(|t| t.linha).collect();
    assert_eq!(linhas, vec![1, 1, 1, 1, 3, 3, 3, 3, 4, 4, 5, 6]);
}
