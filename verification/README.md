# neocobol

Interpretador da linguagem NeoCOBOL 0.5.0 como biblioteca verificada com
Verus. Cada etapa tem um modelo matemático e um contrato exato contra ele:

- `lexer` (modelo `lex_spec`): linhas e tokens; o último token é sempre `Fim`.
- `gramatica` / `parser`: a gramática como funções sobre os tokens
  (`p_expressao`, `p_instrucao`, `p_programa`, ...) e o parser de descida
  recursiva que as segue; toda regra bem sucedida avança.
- `semantico`: a análise de nomes e tipos (`analisar_programa`).
- `semantica` / `runtime`: a execução (`executar_programa`), com as linhas
  escritas por `display` guardadas em ordem.
- `execucao`: o caminho completo de um código-fonte (`executar_codigo`).
- `leis` e `tipagem`: propriedades provadas para todas as entradas, entre
  elas que um programa sem chamadas aceito pela análise não falha por erro
  de tipo na execução.
- `decimal` e `texto`: os decimais de `rust_decimal` e as classificações
  Unicode de `char`, por trás de invólucros com contrato.

`app/main.rs` lê o arquivo `.neo` e escreve cada linha assim que a biblioteca
a produz (progresso e `display`), e o erro no fim, se houver.
