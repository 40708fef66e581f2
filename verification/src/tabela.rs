//! Tabelas de nomes: listas de pares (nome, valor) sem nomes repetidos, e
//! pilhas de escopos feitas dessas listas. Substituem os mapas por nome do
//! interpretador; a ordem dos pares é a ordem de inserção.
use vstd::prelude::*;
use crate::texto::iguais;

verus! {

/// Os nomes de uma tabela, na ordem.
pub open spec fn chaves<V>(s: Seq<(Seq<char>, V)>) -> Seq<Seq<char>> {
    s.map_values(|p: (Seq<char>, V)| p.0)
}

/// Os nomes de uma tabela de execução.
pub open spec fn chaves_exec<V>(s: Seq<(Vec<char>, V)>) -> Seq<Seq<char>> {
    s.map_values(|p: (Vec<char>, V)| p.0@)
}

/// `k` ocorre entre os nomes.
pub open spec fn contem(ks: Seq<Seq<char>>, k: Seq<char>) -> bool {
    exists|i: int| 0 <= i < ks.len() && ks[i] == k
}

/// A primeira posição de `k` entre os nomes (quando `contem(ks, k)`).
pub open spec fn primeira(ks: Seq<Seq<char>>, k: Seq<char>) -> int {
    choose|i: int| 0 <= i < ks.len() && ks[i] == k && forall|j: int| 0 <= j < i ==> ks[j] != k
}

/// A tabela tem o nome `k`.
pub open spec fn tem_chave<V>(s: Seq<(Seq<char>, V)>, k: Seq<char>) -> bool {
    contem(chaves(s), k)
}

/// O valor associado a `k`, se houver.
pub open spec fn valor_de<V>(s: Seq<(Seq<char>, V)>, k: Seq<char>) -> Option<V> {
    if tem_chave(s, k) {
        Some(s[primeira(chaves(s), k)].1)
    } else {
        None
    }
}

/// Associa `v` a `k`: troca o valor se `k` já está na tabela, senão acrescenta
/// o par no fim.
pub open spec fn inserir<V>(s: Seq<(Seq<char>, V)>, k: Seq<char>, v: V) -> Seq<(Seq<char>, V)> {
    if tem_chave(s, k) {
        s.update(primeira(chaves(s), k), (k, v))
    } else {
        s.push((k, v))
    }
}

/// O escopo mais interno (o de maior índice) que tem o nome `k`.
pub open spec fn escopo_de<V>(e: Seq<Seq<(Seq<char>, V)>>, k: Seq<char>) -> Option<int> {
    if exists|i: int| 0 <= i < e.len() && tem_chave(#[trigger] e[i], k) {
        Some(
            choose|i: int|
                0 <= i < e.len() && tem_chave(#[trigger] e[i], k) && forall|j: int|
                    i < j < e.len() ==> !tem_chave(#[trigger] e[j], k),
        )
    } else {
        None
    }
}

/// O valor de `k` no escopo mais interno que o tem.
pub open spec fn buscar<V>(e: Seq<Seq<(Seq<char>, V)>>, k: Seq<char>) -> Option<V> {
    match escopo_de(e, k) {
        Some(i) => valor_de(e[i], k),
        None => None,
    }
}

/// Numa tabela sem nomes repetidos, a primeira posição de um nome é a única.
pub proof fn lema_primeira(ks: Seq<Seq<char>>, k: Seq<char>, p: int)
    requires
        0 <= p < ks.len(),
        ks[p] == k,
        forall|j: int| 0 <= j < p ==> ks[j] != k,
    ensures
        contem(ks, k),
        primeira(ks, k) == p,
{
    let q = primeira(ks, k);
    assert(0 <= q < ks.len() && ks[q] == k && forall|j: int| 0 <= j < q ==> ks[j] != k);
    if q < p {
        assert(ks[q] != k);
    } else if p < q {
        assert(ks[p] != k);
    }
}

/// O escopo mais interno que tem um nome é o único com essa propriedade.
pub proof fn lema_escopo_de<V>(e: Seq<Seq<(Seq<char>, V)>>, k: Seq<char>, i: int)
    requires
        0 <= i < e.len(),
        tem_chave(e[i], k),
        forall|j: int| i < j < e.len() ==> !tem_chave(#[trigger] e[j], k),
    ensures
        escopo_de(e, k) == Some(i),
{
    let q = escopo_de(e, k).unwrap();
    assert(0 <= q < e.len() && tem_chave(e[q], k) && forall|j: int|
        q < j < e.len() ==> !tem_chave(#[trigger] e[j], k));
    if q < i {
        assert(!tem_chave(e[i], k));
    } else if i < q {
        assert(!tem_chave(e[q], k));
    }
}

/// Um nome que ocorre tem uma primeira ocorrência, e é ela que `primeira`
/// dá.
pub proof fn lema_primeira_existe(ks: Seq<Seq<char>>, k: Seq<char>)
    requires
        contem(ks, k),
    ensures
        0 <= primeira(ks, k) < ks.len(),
        ks[primeira(ks, k)] == k,
        forall|j: int| 0 <= j < primeira(ks, k) ==> ks[j] != k,
    decreases ks.len(),
{
    if ks[0] == k {
        lema_primeira(ks, k, 0);
    } else {
        let d = ks.drop_first();
        let w = choose|i: int| 0 <= i < ks.len() && ks[i] == k;
        assert(d[w - 1] == ks[w]);
        lema_primeira_existe(d, k);
        let p = primeira(d, k) + 1;
        assert forall|j: int| 0 <= j < p implies ks[j] != k by {
            if j > 0 {
                assert(ks[j] == d[j - 1]);
            }
        }
        assert(ks[p] == d[p - 1]);
        lema_primeira(ks, k, p);
    }
}

/// Se algum escopo tem o nome `k`, há um mais interno entre eles, e é esse
/// que `escopo_de` dá.
pub proof fn lema_escopo_existe<V>(e: Seq<Seq<(Seq<char>, V)>>, k: Seq<char>)
    requires
        exists|i: int| 0 <= i < e.len() && tem_chave(#[trigger] e[i], k),
    ensures
        escopo_de(e, k) matches Some(i) && 0 <= i < e.len() && tem_chave(e[i], k) && forall|j: int|
            i < j < e.len() ==> !tem_chave(#[trigger] e[j], k),
    decreases e.len(),
{
    let n = e.len() - 1;
    if tem_chave(e[n], k) {
        lema_escopo_de(e, k, n);
    } else {
        let d = e.drop_last();
        let w = choose|i: int| 0 <= i < e.len() && tem_chave(#[trigger] e[i], k);
        assert(d[w] == e[w]);
        lema_escopo_existe(d, k);
        let i = escopo_de(d, k)->Some_0;
        assert forall|j: int| i < j < e.len() implies !tem_chave(#[trigger] e[j], k) by {
            if j < n {
                assert(d[j] == e[j]);
            }
        }
        assert(d[i] == e[i]);
        lema_escopo_de(e, k, i);
    }
}

/// Procura `k` entre os nomes de uma tabela: a primeira posição, se houver.
pub fn procurar<V>(s: &Vec<(Vec<char>, V)>, k: &[char]) -> (r: Option<usize>)
    ensures
        match r {
            Some(p) => p < s@.len() && contem(chaves_exec(s@), k@) && p == primeira(
                chaves_exec(s@),
                k@,
            ),
            None => !contem(chaves_exec(s@), k@),
        },
{
    let n: usize = s.len();
    let mut i: usize = 0;
    while i < n
        invariant
            n == s@.len(),
            i <= n,
            forall|j: int| 0 <= j < i ==> #[trigger] chaves_exec(s@)[j] != k@,
        decreases n - i,
    {
        if iguais(s[i].0.as_slice(), k) {
            proof {
                lema_primeira(chaves_exec(s@), k@, i as int);
            }
            return Some(i);
        }
        i = i + 1;
    }
    proof {
        if contem(chaves_exec(s@), k@) {
            let j = choose|j: int| 0 <= j < n && chaves_exec(s@)[j] == k@;
            assert(chaves_exec(s@)[j] != k@);
        }
    }
    None
}

} // verus!
