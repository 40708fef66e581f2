//! O lexer: divide o código em linhas e cada linha em tokens.
use vstd::prelude::*;
use crate::texto::{
    alfabetico, alfanumerico, digito, e_alfabetico, e_alfanumerico, e_digito, e_espaco_branco,
    espaco_branco, iguais, texto_de,
};
use crate::valores::{ErroModelo, NeoErro};

verus! {

/// Os tipos de token.
#[derive(Clone, Copy, Debug, PartialEq, Eq, Structural)]
pub enum TokenKind {
    Decimal,
    String,
    Boolean,
    Display,
    If,
    Else,
    End,
    While,
    Func,
    Return,
    And,
    Or,
    Not,
    Identificador,
    Numero,
    Texto,
    Mais,
    Menos,
    Multiplica,
    Divide,
    Modulo,
    Igual,
    IgualIgual,
    Diferente,
    Maior,
    Menor,
    MaiorIgual,
    MenorIgual,
    MaisIgual,
    MenosIgual,
    MultiplicaIgual,
    DivideIgual,
    ModuloIgual,
    AbrePar,
    FechaPar,
    Virgula,
    Fim,
}

/// Um token: o tipo, o texto lido e a linha (a partir de 1).
#[derive(Debug)]
pub struct Token {
    pub kind: TokenKind,
    pub texto: Vec<char>,
    pub linha: usize,
}

/// O modelo de um token.
pub struct TokenModelo {
    pub kind: TokenKind,
    pub texto: Seq<char>,
    pub linha: nat,
}

impl View for Token {
    type V = TokenModelo;

    open spec fn view(&self) -> TokenModelo {
        TokenModelo { kind: self.kind, texto: self.texto@, linha: self.linha as nat }
    }
}

/// Os modelos de uma sequência de tokens.
pub open spec fn modelos_tokens(s: Seq<Token>) -> Seq<TokenModelo> {
    s.map_values(|t: Token| t@)
}

impl Token {
    /// Uma cópia do token.
    pub fn copiar(&self) -> (r: Token)
        ensures
            r@ == self@,
    {
        Token { kind: self.kind, texto: crate::texto::copiar(self.texto.as_slice()), linha: self.linha }
    }
}

/// O nome de um tipo de token, como `{:?}` o escreve.
pub open spec fn nome_kind(k: TokenKind) -> Seq<char> {
    match k {
        TokenKind::Decimal => "Decimal"@,
        TokenKind::String => "String"@,
        TokenKind::Boolean => "Boolean"@,
        TokenKind::Display => "Display"@,
        TokenKind::If => "If"@,
        TokenKind::Else => "Else"@,
        TokenKind::End => "End"@,
        TokenKind::While => "While"@,
        TokenKind::Func => "Func"@,
        TokenKind::Return => "Return"@,
        TokenKind::And => "And"@,
        TokenKind::Or => "Or"@,
        TokenKind::Not => "Not"@,
        TokenKind::Identificador => "Identificador"@,
        TokenKind::Numero => "Numero"@,
        TokenKind::Texto => "Texto"@,
        TokenKind::Mais => "Mais"@,
        TokenKind::Menos => "Menos"@,
        TokenKind::Multiplica => "Multiplica"@,
        TokenKind::Divide => "Divide"@,
        TokenKind::Modulo => "Modulo"@,
        TokenKind::Igual => "Igual"@,
        TokenKind::IgualIgual => "IgualIgual"@,
        TokenKind::Diferente => "Diferente"@,
        TokenKind::Maior => "Maior"@,
        TokenKind::Menor => "Menor"@,
        TokenKind::MaiorIgual => "MaiorIgual"@,
        TokenKind::MenorIgual => "MenorIgual"@,
        TokenKind::MaisIgual => "MaisIgual"@,
        TokenKind::MenosIgual => "MenosIgual"@,
        TokenKind::MultiplicaIgual => "MultiplicaIgual"@,
        TokenKind::DivideIgual => "DivideIgual"@,
        TokenKind::ModuloIgual => "ModuloIgual"@,
        TokenKind::AbrePar => "AbrePar"@,
        TokenKind::FechaPar => "FechaPar"@,
        TokenKind::Virgula => "Virgula"@,
        TokenKind::Fim => "Fim"@,
    }
}

impl TokenKind {
    /// O nome do tipo de token, como `{:?}` o escreve.
    pub fn nome(&self) -> (r: &'static str)
        ensures
            r@ == nome_kind(*self),
    {
        match self {
            TokenKind::Decimal => "Decimal",
            TokenKind::String => "String",
            TokenKind::Boolean => "Boolean",
            TokenKind::Display => "Display",
            TokenKind::If => "If",
            TokenKind::Else => "Else",
            TokenKind::End => "End",
            TokenKind::While => "While",
            TokenKind::Func => "Func",
            TokenKind::Return => "Return",
            TokenKind::And => "And",
            TokenKind::Or => "Or",
            TokenKind::Not => "Not",
            TokenKind::Identificador => "Identificador",
            TokenKind::Numero => "Numero",
            TokenKind::Texto => "Texto",
            TokenKind::Mais => "Mais",
            TokenKind::Menos => "Menos",
            TokenKind::Multiplica => "Multiplica",
            TokenKind::Divide => "Divide",
            TokenKind::Modulo => "Modulo",
            TokenKind::Igual => "Igual",
            TokenKind::IgualIgual => "IgualIgual",
            TokenKind::Diferente => "Diferente",
            TokenKind::Maior => "Maior",
            TokenKind::Menor => "Menor",
            TokenKind::MaiorIgual => "MaiorIgual",
            TokenKind::MenorIgual => "MenorIgual",
            TokenKind::MaisIgual => "MaisIgual",
            TokenKind::MenosIgual => "MenosIgual",
            TokenKind::MultiplicaIgual => "MultiplicaIgual",
            TokenKind::DivideIgual => "DivideIgual",
            TokenKind::ModuloIgual => "ModuloIgual",
            TokenKind::AbrePar => "AbrePar",
            TokenKind::FechaPar => "FechaPar",
            TokenKind::Virgula => "Virgula",
            TokenKind::Fim => "Fim",
        }
    }
}

// ================================================================
// Linhas
// ================================================================

/// A primeira posição de `c` em `s`, se houver.
pub open spec fn posicao_de(s: Seq<char>, c: char) -> Option<int> {
    if exists|i: int| 0 <= i < s.len() && s[i] == c {
        Some(choose|i: int| 0 <= i < s.len() && s[i] == c && forall|j: int| 0 <= j < i ==> s[j] != c)
    } else {
        None
    }
}

/// Tira um `\r` final.
pub open spec fn sem_cr(l: Seq<char>) -> Seq<char> {
    if l.len() > 0 && l.last() == '\r' {
        l.drop_last()
    } else {
        l
    }
}

/// As linhas de um texto, como `str::lines`: separadas por `\n` ou `\r\n`,
/// sem os terminadores; um terminador no fim não abre uma linha vazia.
#[verifier::opaque]
pub open spec fn linhas(s: Seq<char>) -> Seq<Seq<char>>
    decreases s.len(),
{
    if s.len() == 0 {
        Seq::empty()
    } else {
        match posicao_de(s, '\n') {
            None => seq![s],
            Some(k) => if 0 <= k < s.len() {
                seq![sem_cr(s.take(k))] + linhas(s.skip(k + 1))
            } else {
                Seq::empty()
            },
        }
    }
}

/// Se `s[p] == c` e `c` não ocorre antes, `p` é a primeira posição de `c`.
pub proof fn lema_posicao_de(s: Seq<char>, c: char, p: int)
    requires
        0 <= p < s.len(),
        s[p] == c,
        forall|j: int| 0 <= j < p ==> s[j] != c,
    ensures
        posicao_de(s, c) == Some(p),
{
    let q = posicao_de(s, c).unwrap();
    assert(0 <= q < s.len() && s[q] == c && forall|j: int| 0 <= j < q ==> s[j] != c);
    if q < p {
        assert(s[q] != c);
    } else if p < q {
        assert(s[p] != c);
    }
}

/// Uma linha terminada pelo primeiro `\n` do texto.
pub proof fn lema_linhas_passo(s: Seq<char>, k: int)
    requires
        0 <= k < s.len(),
        s[k] == '\n',
        forall|j: int| 0 <= j < k ==> s[j] != '\n',
    ensures
        linhas(s) == seq![sem_cr(s.take(k))] + linhas(s.skip(k + 1)),
{
    lema_posicao_de(s, '\n', k);
    reveal(linhas);
}

/// Um texto sem `\n` é uma linha só, e o texto vazio não tem linhas.
pub proof fn lema_linhas_ultima(s: Seq<char>)
    requires
        forall|j: int| 0 <= j < s.len() ==> s[j] != '\n',
    ensures
        s.len() > 0 ==> linhas(s) == seq![s],
        s.len() == 0 ==> linhas(s) == Seq::<Seq<char>>::empty(),
{
    reveal(linhas);
}

/// Copia `s[de..ate]` sem um `\r` final quando `tira_cr`.
fn trecho(s: &[char], de: usize, ate: usize) -> (r: Vec<char>)
    requires
        de <= ate <= s@.len(),
    ensures
        r@ == s@.subrange(de as int, ate as int),
{
    let mut r: Vec<char> = Vec::new();
    let mut i = de;
    while i < ate
        invariant
            de <= i <= ate,
            ate <= s@.len(),
            r@ == s@.subrange(de as int, i as int),
        decreases ate - i,
    {
        r.push(s[i]);
        i = i + 1;
        assert(r@ =~= s@.subrange(de as int, i as int));
    }
    r
}

fn tirar_cr(l: Vec<char>) -> (r: Vec<char>)
    ensures
        r@ == sem_cr(l@),
{
    let mut l = l;
    if l.len() > 0 && l[l.len() - 1] == '\r' {
        l.pop();
    }
    l
}

/// O número de linhas é no máximo o número de caracteres.
pub proof fn lema_linhas_tamanho(s: Seq<char>)
    ensures
        linhas(s).len() <= s.len(),
    decreases s.len(),
{
    reveal(linhas);
    if s.len() > 0 {
        match posicao_de(s, '\n') {
            None => {},
            Some(k) => {
                if 0 <= k < s.len() {
                    lema_linhas_tamanho(s.skip(k + 1));
                }
            },
        }
    }
}

/// Divide o texto em linhas (`str::lines`).
pub fn dividir_linhas(s: &[char]) -> (r: Vec<Vec<char>>)
    ensures
        r@.map_values(|l: Vec<char>| l@) == linhas(s@),
{
    let mut r: Vec<Vec<char>> = Vec::new();
    let n = s.len();
    let mut inicio: usize = 0;
    let mut i: usize = 0;
    assert(s@.skip(0) == s@);
    while i < n
        invariant
            n == s@.len(),
            inicio <= i <= n,
            forall|j: int| inicio <= j < i ==> s@[j] != '\n',
            linhas(s@) == r@.map_values(|l: Vec<char>| l@) + linhas(s@.skip(inicio as int)),
        decreases n - i,
    {
        if s[i] == '\n' {
            let ghost resto = s@.skip(inicio as int);
            proof {
                lema_linhas_passo(resto, i - inicio);
                assert(resto.take(i - inicio) =~= s@.subrange(inicio as int, i as int));
                assert(resto.skip(i - inicio + 1) =~= s@.skip(i + 1));
            }
            let l = tirar_cr(trecho(s, inicio, i));
            let ghost antes = r@;
            r.push(l);
            assert(r@.map_values(|l: Vec<char>| l@) =~= antes.map_values(|l: Vec<char>| l@).push(
                l@,
            ));
            inicio = i + 1;
        }
        i = i + 1;
    }
    if inicio < n {
        let ghost resto = s@.skip(inicio as int);
        proof {
            assert forall|j: int| 0 <= j < resto.len() implies resto[j] != '\n' by {
                assert(resto[j] == s@[inicio + j]);
            }
            lema_linhas_ultima(resto);
        }
        let l = trecho(s, inicio, n);
        assert(l@ =~= resto);
        let ghost antes = r@;
        r.push(l);
        assert(r@.map_values(|l: Vec<char>| l@) =~= antes.map_values(|l: Vec<char>| l@).push(
            l@,
        ));
        assert(linhas(resto) == seq![resto]);
    } else {
        assert(s@.skip(inicio as int) =~= Seq::<char>::empty());
        proof {
            lema_linhas_ultima(s@.skip(inicio as int));
        }
    }
    assert(r@.map_values(|l: Vec<char>| l@) =~= r@.map_values(|l: Vec<char>| l@) + Seq::<
        Seq<char>,
    >::empty());
    r
}

// ================================================================
// Tokens de uma linha
// ================================================================

/// Um token da linha `linha`.
pub open spec fn token(kind: TokenKind, texto: Seq<char>, linha: nat) -> TokenModelo {
    TokenModelo { kind, texto, linha }
}

/// Os tokens `t` seguidos do resultado `r`; um erro em `r` prevalece.
pub open spec fn prefixar(t: Seq<TokenModelo>, r: Result<Seq<TokenModelo>, ErroModelo>) -> Result<
    Seq<TokenModelo>,
    ErroModelo,
> {
    match r {
        Ok(u) => Ok(t + u),
        Err(e) => Err(e),
    }
}

/// Um erro léxico.
pub open spec fn erro_lexico(linha: nat, mensagem: Seq<char>) -> ErroModelo {
    ErroModelo::Lexico { linha, mensagem }
}

/// Onde termina a sequência de dígitos e pontos que continua em `j`.
pub open spec fn fim_numero(l: Seq<char>, j: int) -> int
    decreases l.len() - j,
{
    if 0 <= j < l.len() && (digito(l[j]) || l[j] == '.') {
        fim_numero(l, j + 1)
    } else {
        j
    }
}

/// Onde termina a sequência de letras, dígitos e `_` que continua em `j`.
pub open spec fn fim_palavra(l: Seq<char>, j: int) -> int
    decreases l.len() - j,
{
    if 0 <= j < l.len() && (alfanumerico(l[j]) || l[j] == '_') {
        fim_palavra(l, j + 1)
    } else {
        j
    }
}

/// Quantos pontos há no texto.
pub open spec fn conta_pontos(s: Seq<char>) -> nat
    decreases s.len(),
{
    if s.len() == 0 {
        0
    } else {
        conta_pontos(s.drop_last()) + if s.last() == '.' {
            1nat
        } else {
            0nat
        }
    }
}

pub proof fn lema_fim_numero(l: Seq<char>, j: int)
    ensures
        fim_numero(l, j) >= j,
        0 <= j <= l.len() ==> fim_numero(l, j) <= l.len(),
    decreases l.len() - j,
{
    if 0 <= j < l.len() && (digito(l[j]) || l[j] == '.') {
        lema_fim_numero(l, j + 1);
    }
}

pub proof fn lema_fim_palavra(l: Seq<char>, j: int)
    ensures
        fim_palavra(l, j) >= j,
        0 <= j <= l.len() ==> fim_palavra(l, j) <= l.len(),
    decreases l.len() - j,
{
    if 0 <= j < l.len() && (alfanumerico(l[j]) || l[j] == '_') {
        lema_fim_palavra(l, j + 1);
    }
}

/// O tipo de token de uma palavra: uma palavra reservada ou um identificador.
pub open spec fn palavra_chave(w: Seq<char>) -> TokenKind {
    if w == "decimal"@ {
        TokenKind::Decimal
    } else if w == "string"@ {
        TokenKind::String
    } else if w == "boolean"@ || w == "true"@ || w == "false"@ {
        TokenKind::Boolean
    } else if w == "display"@ {
        TokenKind::Display
    } else if w == "if"@ {
        TokenKind::If
    } else if w == "else"@ {
        TokenKind::Else
    } else if w == "end"@ {
        TokenKind::End
    } else if w == "while"@ {
        TokenKind::While
    } else if w == "func"@ {
        TokenKind::Func
    } else if w == "return"@ {
        TokenKind::Return
    } else if w == "and"@ {
        TokenKind::And
    } else if w == "or"@ {
        TokenKind::Or
    } else if w == "not"@ {
        TokenKind::Not
    } else {
        TokenKind::Identificador
    }
}

/// Os operadores que valem sozinhos ou seguidos de `=`: o tipo de cada forma.
pub open spec fn par_operador(c: char) -> Option<(TokenKind, TokenKind)> {
    if c == '+' {
        Some((TokenKind::Mais, TokenKind::MaisIgual))
    } else if c == '-' {
        Some((TokenKind::Menos, TokenKind::MenosIgual))
    } else if c == '*' {
        Some((TokenKind::Multiplica, TokenKind::MultiplicaIgual))
    } else if c == '/' {
        Some((TokenKind::Divide, TokenKind::DivideIgual))
    } else if c == '%' {
        Some((TokenKind::Modulo, TokenKind::ModuloIgual))
    } else if c == '=' {
        Some((TokenKind::Igual, TokenKind::IgualIgual))
    } else if c == '>' {
        Some((TokenKind::Maior, TokenKind::MaiorIgual))
    } else if c == '<' {
        Some((TokenKind::Menor, TokenKind::MenorIgual))
    } else {
        None
    }
}

/// Os sinais de um caractere só.
pub open spec fn sinal_simples(c: char) -> Option<TokenKind> {
    if c == '(' {
        Some(TokenKind::AbrePar)
    } else if c == ')' {
        Some(TokenKind::FechaPar)
    } else if c == ',' {
        Some(TokenKind::Virgula)
    } else {
        None
    }
}

/// Os tokens da linha `l` a partir da posição `i`; `n` é o número da linha.
#[verifier::opaque]
pub open spec fn lex_de(l: Seq<char>, i: int, n: nat) -> Result<Seq<TokenModelo>, ErroModelo>
    decreases l.len() - i,
{
    if i < 0 || i >= l.len() {
        Ok(Seq::empty())
    } else {
        let c = l[i];
        if espaco_branco(c) {
            lex_de(l, i + 1, n)
        } else if c == '#' {
            Ok(Seq::empty())
        } else if c == '"' {
            match posicao_de(l.skip(i + 1), '"') {
                None => Err(erro_lexico(n, "String não terminada."@)),
                Some(k) => if 0 <= k && i + 2 + k <= l.len() {
                    prefixar(
                        seq![token(TokenKind::Texto, l.subrange(i + 1, i + 1 + k), n)],
                        lex_de(l, i + 2 + k, n),
                    )
                } else {
                    Ok(Seq::empty())
                },
            }
        } else if digito(c) {
            let k = fim_numero(l, i + 1);
            if k <= i || k > l.len() {
                Ok(Seq::empty())
            } else if conta_pontos(l.subrange(i, k)) > 1 {
                Err(erro_lexico(n, "Número possui mais de um ponto decimal."@))
            } else {
                prefixar(seq![token(TokenKind::Numero, l.subrange(i, k), n)], lex_de(l, k, n))
            }
        } else if alfabetico(c) || c == '_' {
            let k = fim_palavra(l, i + 1);
            if k <= i || k > l.len() {
                Ok(Seq::empty())
            } else {
                let w = l.subrange(i, k);
                prefixar(seq![token(palavra_chave(w), w, n)], lex_de(l, k, n))
            }
        } else {
            match par_operador(c) {
                Some((simples, duplo)) => if i + 1 < l.len() && l[i + 1] == '=' {
                    prefixar(seq![token(duplo, seq![c, '='], n)], lex_de(l, i + 2, n))
                } else {
                    prefixar(seq![token(simples, seq![c], n)], lex_de(l, i + 1, n))
                },
                None => if c == '!' {
                    if i + 1 < l.len() && l[i + 1] == '=' {
                        prefixar(
                            seq![token(TokenKind::Diferente, seq!['!', '='], n)],
                            lex_de(l, i + 2, n),
                        )
                    } else {
                        Err(erro_lexico(n, "Use != para diferença."@))
                    }
                } else {
                    match sinal_simples(c) {
                        Some(k) => prefixar(seq![token(k, seq![c], n)], lex_de(l, i + 1, n)),
                        None => Err(
                            erro_lexico(n, "Caractere desconhecido '"@ + seq![c] + "'."@),
                        ),
                    }
                },
            }
        }
    }
}

/// Os tokens de cada linha, numeradas a partir de `n`.
#[verifier::opaque]
pub open spec fn lex_linhas(ls: Seq<Seq<char>>, n: nat) -> Result<Seq<TokenModelo>, ErroModelo>
    decreases ls.len(),
{
    if ls.len() == 0 {
        Ok(Seq::empty())
    } else {
        match lex_de(ls[0], 0, n) {
            Err(e) => Err(e),
            Ok(t) => prefixar(t, lex_linhas(ls.drop_first(), n + 1)),
        }
    }
}

/// Os tokens de um programa: os de cada linha, na ordem, e por fim `Fim`,
/// na linha seguinte à última; ou o primeiro erro léxico.
pub open spec fn lex_spec(codigo: Seq<char>) -> Result<Seq<TokenModelo>, ErroModelo> {
    match lex_linhas(linhas(codigo), 1) {
        Err(e) => Err(e),
        Ok(t) => Ok(t.push(token(TokenKind::Fim, Seq::empty(), linhas(codigo).len() + 1))),
    }
}

pub proof fn lema_prefixar(t: Seq<TokenModelo>, u: Seq<TokenModelo>, r: Result<
    Seq<TokenModelo>,
    ErroModelo,
>)
    ensures
        prefixar(t, prefixar(u, r)) == prefixar(t + u, r),
{
    match r {
        Ok(v) => {
            assert(t + (u + v) =~= (t + u) + v);
        },
        Err(_) => {},
    }
}

/// O modelo do resultado do lexer sobre a lista de tokens `ts`.
pub open spec fn resultado_lex(r: Result<(), NeoErro>, ts: Seq<Token>) -> Result<
    Seq<TokenModelo>,
    ErroModelo,
> {
    match r {
        Ok(_) => Ok(modelos_tokens(ts)),
        Err(e) => Err(e@),
    }
}

fn empurrar(tokens: &mut Vec<Token>, kind: TokenKind, texto: Vec<char>, linha: usize)
    ensures
        modelos_tokens(final(tokens)@) == modelos_tokens(old(tokens)@) + seq![
            token(kind, texto@, linha as nat),
        ],
{
    let ghost t = texto@;
    tokens.push(Token { kind, texto, linha });
    assert(modelos_tokens(tokens@) =~= modelos_tokens(old(tokens)@) + seq![
        token(kind, t, linha as nat),
    ]);
}

fn erro_lexico_em(linha: usize, mensagem: Vec<char>) -> (r: NeoErro)
    ensures
        r@ == erro_lexico(linha as nat, mensagem@),
{
    NeoErro::Lexico { linha, mensagem }
}

/// A posição do `"` que fecha o texto aberto em `i`.
fn fim_texto(l: &[char], i: usize) -> (r: Option<usize>)
    requires
        i < l.len(),
    ensures
        match r {
            Some(j) => i < j < l@.len() && posicao_de(l@.skip(i + 1), '"') == Some(j - i - 1),
            None => posicao_de(l@.skip(i + 1), '"') is None,
        },
{
    let ghost resto = l@.skip(i + 1);
    let mut j = i + 1;
    while j < l.len()
        invariant
            i < j <= l@.len(),
            resto == l@.skip(i + 1),
            forall|k: int| 0 <= k < j - i - 1 ==> resto[k] != '"',
        decreases l@.len() - j,
    {
        if l[j] == '"' {
            proof {
                lema_posicao_de(resto, '"', j - i - 1);
            }
            return Some(j);
        }
        j = j + 1;
    }
    proof {
        if exists|k: int| 0 <= k < resto.len() && resto[k] == '"' {
            let k = choose|k: int| 0 <= k < resto.len() && resto[k] == '"';
            assert(resto[k] != '"');
        }
    }
    None
}

/// O fim de um número que começa em `i` e quantos pontos ele tem.
fn fim_do_numero(l: &[char], i: usize) -> (r: (usize, usize))
    requires
        i < l.len(),
    ensures
        r.0 as int == fim_numero(l@, i + 1),
        i < r.0 <= l@.len(),
        r.1 as nat == conta_pontos(l@.subrange(i as int, r.0 as int)),
{
    let mut j = i + 1;
    let mut pontos: usize = if l[i] == '.' {
        1
    } else {
        0
    };
    assert(l@.subrange(i as int, j as int).drop_last() =~= Seq::<char>::empty());
    assert(l@.subrange(i as int, j as int).last() == l@[i as int]);
    assert(conta_pontos(Seq::<char>::empty()) == 0);
    while j < l.len() && (e_digito(l[j]) || l[j] == '.')
        invariant
            i < j <= l@.len(),
            fim_numero(l@, i + 1) == fim_numero(l@, j as int),
            pontos as nat == conta_pontos(l@.subrange(i as int, j as int)),
            pontos <= j - i,
        decreases l@.len() - j,
    {
        if l[j] == '.' {
            pontos = pontos + 1;
        }
        j = j + 1;
        assert(l@.subrange(i as int, j as int).drop_last() =~= l@.subrange(i as int, j - 1));
    }
    (j, pontos)
}

/// O fim de uma palavra que começa em `i`.
fn fim_da_palavra(l: &[char], i: usize) -> (r: usize)
    requires
        i < l.len(),
    ensures
        r as int == fim_palavra(l@, i + 1),
        i < r <= l@.len(),
{
    let mut j = i + 1;
    while j < l.len() && (e_alfanumerico(l[j]) || l[j] == '_')
        invariant
            i < j <= l@.len(),
            fim_palavra(l@, i + 1) == fim_palavra(l@, j as int),
        decreases l@.len() - j,
    {
        j = j + 1;
    }
    j
}

/// O tipo de token de uma palavra.
pub fn classificar(w: &[char]) -> (r: TokenKind)
    ensures
        r == palavra_chave(w@),
{
    if iguais(w, texto_de("decimal").as_slice()) {
        TokenKind::Decimal
    } else if iguais(w, texto_de("string").as_slice()) {
        TokenKind::String
    } else if iguais(w, texto_de("boolean").as_slice()) || iguais(w, texto_de("true").as_slice())
        || iguais(w, texto_de("false").as_slice()) {
        TokenKind::Boolean
    } else if iguais(w, texto_de("display").as_slice()) {
        TokenKind::Display
    } else if iguais(w, texto_de("if").as_slice()) {
        TokenKind::If
    } else if iguais(w, texto_de("else").as_slice()) {
        TokenKind::Else
    } else if iguais(w, texto_de("end").as_slice()) {
        TokenKind::End
    } else if iguais(w, texto_de("while").as_slice()) {
        TokenKind::While
    } else if iguais(w, texto_de("func").as_slice()) {
        TokenKind::Func
    } else if iguais(w, texto_de("return").as_slice()) {
        TokenKind::Return
    } else if iguais(w, texto_de("and").as_slice()) {
        TokenKind::And
    } else if iguais(w, texto_de("or").as_slice()) {
        TokenKind::Or
    } else if iguais(w, texto_de("not").as_slice()) {
        TokenKind::Not
    } else {
        TokenKind::Identificador
    }
}

fn operador_duplo(c: char) -> (r: Option<(TokenKind, TokenKind)>)
    ensures
        r == par_operador(c),
{
    if c == '+' {
        Some((TokenKind::Mais, TokenKind::MaisIgual))
    } else if c == '-' {
        Some((TokenKind::Menos, TokenKind::MenosIgual))
    } else if c == '*' {
        Some((TokenKind::Multiplica, TokenKind::MultiplicaIgual))
    } else if c == '/' {
        Some((TokenKind::Divide, TokenKind::DivideIgual))
    } else if c == '%' {
        Some((TokenKind::Modulo, TokenKind::ModuloIgual))
    } else if c == '=' {
        Some((TokenKind::Igual, TokenKind::IgualIgual))
    } else if c == '>' {
        Some((TokenKind::Maior, TokenKind::MaiorIgual))
    } else if c == '<' {
        Some((TokenKind::Menor, TokenKind::MenorIgual))
    } else {
        None
    }
}

fn sinal(c: char) -> (r: Option<TokenKind>)
    ensures
        r == sinal_simples(c),
{
    if c == '(' {
        Some(TokenKind::AbrePar)
    } else if c == ')' {
        Some(TokenKind::FechaPar)
    } else if c == ',' {
        Some(TokenKind::Virgula)
    } else {
        None
    }
}

fn um_caractere(c: char) -> (r: Vec<char>)
    ensures
        r@ == seq![c],
{
    let mut r: Vec<char> = Vec::new();
    r.push(c);
    assert(r@ =~= seq![c]);
    r
}

fn dois_caracteres(c: char, d: char) -> (r: Vec<char>)
    ensures
        r@ == seq![c, d],
{
    let mut r: Vec<char> = Vec::new();
    r.push(c);
    r.push(d);
    assert(r@ =~= seq![c, d]);
    r
}

/// Acrescenta a `tokens` os tokens da linha `l`, de número `n`.
#[verifier::rlimit(60)]
#[verifier::spinoff_prover]
pub fn lex_linha(l: &[char], n: usize, tokens: &mut Vec<Token>) -> (r: Result<(), NeoErro>)
    ensures
        prefixar(modelos_tokens(old(tokens)@), lex_de(l@, 0, n as nat)) == resultado_lex(
            r,
            final(tokens)@,
        ),
{
    reveal(lex_de);
    let len = l.len();
    let mut i: usize = 0;
    while i < len
        invariant
            len == l@.len(),
            i <= len,
            prefixar(modelos_tokens(old(tokens)@), lex_de(l@, 0, n as nat)) == prefixar(
                modelos_tokens(tokens@),
                lex_de(l@, i as int, n as nat),
            ),
        decreases len - i,
    {
        proof {
            reveal(lex_de);
        }
        let ghost t0 = modelos_tokens(tokens@);
        let c = l[i];
        if e_espaco_branco(c) {
            i = i + 1;
            continue ;
        }
        if c == '#' {
            assert(t0 + Seq::<TokenModelo>::empty() == t0);
            return Ok(());
        }
        if c == '"' {
            match fim_texto(l, i) {
                None => {
                    return Err(erro_lexico_em(n, texto_de("String não terminada.")));
                },
                Some(j) => {
                    let t = trecho(l, i + 1, j);
                    proof {
                        lema_prefixar(
                            t0,
                            seq![token(TokenKind::Texto, t@, n as nat)],
                            lex_de(l@, j + 1, n as nat),
                        );
                    }
                    empurrar(tokens, TokenKind::Texto, t, n);
                    i = j + 1;
                    continue ;
                },
            }
        }
        if e_digito(c) {
            let (k, pontos) = fim_do_numero(l, i);
            if pontos > 1 {
                return Err(
                    erro_lexico_em(n, texto_de("Número possui mais de um ponto decimal.")),
                );
            }
            let t = trecho(l, i, k);
            proof {
                lema_prefixar(
                    t0,
                    seq![token(TokenKind::Numero, t@, n as nat)],
                    lex_de(l@, k as int, n as nat),
                );
            }
            empurrar(tokens, TokenKind::Numero, t, n);
            i = k;
            continue ;
        }
        if e_alfabetico(c) || c == '_' {
            let k = fim_da_palavra(l, i);
            let w = trecho(l, i, k);
            let kind = classificar(w.as_slice());
            proof {
                assert(lex_de(l@, i as int, n as nat) == prefixar(
                    seq![token(kind, w@, n as nat)],
                    lex_de(l@, k as int, n as nat),
                ));
                lema_prefixar(t0, seq![token(kind, w@, n as nat)], lex_de(l@, k as int, n as nat));
            }
            empurrar(tokens, kind, w, n);
            i = k;
            continue ;
        }
        match operador_duplo(c) {
            Some((simples, duplo)) => {
                if i + 1 < len && l[i + 1] == '=' {
                    proof {
                        lema_prefixar(
                            t0,
                            seq![token(duplo, seq![c, '='], n as nat)],
                            lex_de(l@, i + 2, n as nat),
                        );
                    }
                    empurrar(tokens, duplo, dois_caracteres(c, '='), n);
                    i = i + 2;
                } else {
                    proof {
                        lema_prefixar(
                            t0,
                            seq![token(simples, seq![c], n as nat)],
                            lex_de(l@, i + 1, n as nat),
                        );
                    }
                    empurrar(tokens, simples, um_caractere(c), n);
                    i = i + 1;
                }
            },
            None => {
                if c == '!' {
                    if i + 1 < len && l[i + 1] == '=' {
                        proof {
                            lema_prefixar(
                                t0,
                                seq![token(TokenKind::Diferente, seq!['!', '='], n as nat)],
                                lex_de(l@, i + 2, n as nat),
                            );
                        }
                        empurrar(tokens, TokenKind::Diferente, dois_caracteres('!', '='), n);
                        i = i + 2;
                    } else {
                        return Err(erro_lexico_em(n, texto_de("Use != para diferença.")));
                    }
                } else {
                    match sinal(c) {
                        Some(kind) => {
                            proof {
                                lema_prefixar(
                                    t0,
                                    seq![token(kind, seq![c], n as nat)],
                                    lex_de(l@, i + 1, n as nat),
                                );
                            }
                            empurrar(tokens, kind, um_caractere(c), n);
                            i = i + 1;
                        },
                        None => {
                            let mut m = texto_de("Caractere desconhecido '");
                            m.push(c);
                            crate::texto::anexar_literal(&mut m, "'.");
                            assert(m@ =~= "Caractere desconhecido '"@ + seq![c] + "'."@);
                            return Err(erro_lexico_em(n, m));
                        },
                    }
                }
            },
        }
    }
    assert(modelos_tokens(tokens@) + Seq::<TokenModelo>::empty() == modelos_tokens(tokens@));
    Ok(())
}

/// Um passo da leitura das linhas, na posição `i`.
pub proof fn lema_passo_linhas(ls: Seq<Seq<char>>, i: int, n: nat)
    requires
        0 <= i < ls.len(),
    ensures
        lex_linhas(ls.skip(i), n) == match lex_de(ls[i], 0, n) {
            Err(e) => Err(e),
            Ok(t) => prefixar(t, lex_linhas(ls.skip(i + 1), n + 1)),
        },
{
    reveal(lex_linhas);
    assert(ls.skip(i)[0] == ls[i]);
    assert(ls.skip(i).drop_first() =~= ls.skip(i + 1));
}

/// Divide o código em tokens. O último token é sempre `Fim`, na linha
/// seguinte à última linha do código.
pub fn lex(codigo: &str) -> (r: Result<Vec<Token>, NeoErro>)
    requires
        codigo@.len() < usize::MAX,
    ensures
        match r {
            Ok(ts) => lex_spec(codigo@) == Ok::<Seq<TokenModelo>, ErroModelo>(modelos_tokens(ts@)),
            Err(e) => lex_spec(codigo@) == Err::<Seq<TokenModelo>, ErroModelo>(e@),
        },
{
    let chars = texto_de(codigo);
    let ls = dividir_linhas(chars.as_slice());
    let ghost lm = linhas(chars@);
    proof {
        lema_linhas_tamanho(chars@);
    }
    let mut tokens: Vec<Token> = Vec::new();
    let n = ls.len();
    let mut i: usize = 0;
    assert(lm.skip(0) == lm);
    assert(modelos_tokens(tokens@) =~= Seq::<TokenModelo>::empty());
    assert(prefixar(Seq::<TokenModelo>::empty(), lex_linhas(lm, 1)) == lex_linhas(lm, 1)) by {
        match lex_linhas(lm, 1) {
            Ok(u) => {
                assert(Seq::<TokenModelo>::empty() + u =~= u);
            },
            Err(_) => {},
        }
    }
    while i < n
        invariant
            n == ls@.len(),
            lm == ls@.map_values(|l: Vec<char>| l@),
            lm == linhas(codigo@),
            lm.len() == n,
            n < usize::MAX,
            i <= n,
            lex_linhas(lm, 1) == prefixar(
                modelos_tokens(tokens@),
                lex_linhas(lm.skip(i as int), (i + 1) as nat),
            ),
        decreases n - i,
    {
        proof {
            lema_passo_linhas(lm, i as int, (i + 1) as nat);
            assert(lm[i as int] == ls@[i as int]@);
        }
        let ghost t0 = modelos_tokens(tokens@);
        let r = lex_linha(ls[i].as_slice(), i + 1, &mut tokens);
        match r {
            Err(e) => {
                proof {
                    let x = lex_de(lm[i as int], 0, (i + 1) as nat);
                    assert(prefixar(t0, x) == Err::<Seq<TokenModelo>, ErroModelo>(e@));
                    assert(x == Err::<Seq<TokenModelo>, ErroModelo>(e@));
                    assert(lex_linhas(lm, 1) == Err::<Seq<TokenModelo>, ErroModelo>(e@));
                    assert(linhas(codigo@) == lm);
                }
                return Err(e);
            },
            Ok(()) => {
                proof {
                    let u = lex_de(lm[i as int], 0, (i + 1) as nat)->Ok_0;
                    assert(t0 + u == modelos_tokens(tokens@));
                    lema_prefixar(t0, u, lex_linhas(lm.skip(i + 1), (i + 2) as nat));
                }
            },
        }
        i = i + 1;
    }
    assert(lm.skip(n as int) =~= Seq::<Seq<char>>::empty());
    proof {
        reveal(lex_linhas);
    }
    let ghost t = modelos_tokens(tokens@);
    assert(t + Seq::<TokenModelo>::empty() =~= t);
    tokens.push(Token { kind: TokenKind::Fim, texto: Vec::new(), linha: n + 1 });
    assert(modelos_tokens(tokens@) =~= t.push(
        token(TokenKind::Fim, Seq::empty(), (n + 1) as nat),
    ));
    Ok(tokens)
}

} // verus!
