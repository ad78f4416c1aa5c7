use vstd::prelude::*;
use vstd::multiset::Multiset;
use vstd::string::StringExecFns;
use crate::animation::{AnimationEvent, EventLog, MachineState, TipoEvento};
use crate::animation::{
    conta_tipo, eh_snapshot, instantanea_de, lemma_prefixo_refl, lemma_prefixo_trans,
    log_estendido, maquinas_do_snapshot, sufixo_movidas_validas,
};
use crate::rng::valor_tarefa_aleatorio;
use crate::utils::{ConfigErro, RunResult};

verus! {

broadcast use
    crate::animation::lemma_prefixo_push,
    crate::animation::lemma_conta_tipo_push,
    crate::animation::lemma_sufixo_movidas_push,
    vstd::multiset::group_multiset_axioms,
    vstd::seq_lib::group_to_multiset_ensures;

// ---------------------------------------------------------------------------
// Solution model
// ---------------------------------------------------------------------------

/// One machine: a fixed-capacity task buffer together with the index of the
/// last occupied slot.  `pos == -1` means the machine holds no tasks; slots
/// past `pos` are spare capacity whose contents carry no meaning.
pub struct Maquina {
    pub tarefas: Vec<u32>,
    pub pos: i32,
}

/// Sum of a sequence of task weights, as a mathematical integer.
pub open spec fn soma(s: Seq<u32>) -> int
    decreases s.len(),
{
    if s.len() == 0 {
        0
    } else {
        soma(s.drop_last()) + s.last()
    }
}

pub proof fn lemma_soma_nonneg(s: Seq<u32>)
    ensures
        soma(s) >= 0,
    decreases s.len(),
{
    if s.len() > 0 {
        lemma_soma_nonneg(s.drop_last());
    }
}

pub proof fn lemma_soma_push(s: Seq<u32>, x: u32)
    ensures
        soma(s.push(x)) == soma(s) + x,
{
    assert(s.push(x).drop_last() =~= s);
}

/// Every element of a weight sequence is at most the whole sum.
pub proof fn lemma_soma_elem(s: Seq<u32>, i: int)
    requires
        0 <= i < s.len(),
    ensures
        s[i] <= soma(s),
    decreases s.len(),
{
    if i == s.len() - 1 {
        lemma_soma_nonneg(s.drop_last());
    } else {
        lemma_soma_elem(s.drop_last(), i);
    }
}

/// Removing one element takes exactly its weight out of the sum.
pub proof fn lemma_soma_remove(s: Seq<u32>, i: int)
    requires
        0 <= i < s.len(),
    ensures
        soma(s.remove(i)) == soma(s) - s[i],
    decreases s.len(),
{
    if i == s.len() - 1 {
        assert(s.remove(i) =~= s.drop_last());
    } else {
        assert(s.remove(i).drop_last() =~= s.drop_last().remove(i));
        assert(s.remove(i).last() == s.last());
        lemma_soma_remove(s.drop_last(), i);
    }
}

/// Prefix sums of a weight sequence grow with the prefix length.
pub proof fn lemma_soma_prefixo(s: Seq<u32>, i: int, j: int)
    requires
        0 <= i <= j <= s.len(),
    ensures
        soma(s.subrange(0, i)) <= soma(s.subrange(0, j)),
    decreases j - i,
{
    if i < j {
        lemma_soma_prefixo(s, i, j - 1);
        assert(s.subrange(0, j).drop_last() =~= s.subrange(0, j - 1));
    }
}

/// Weights drawn by the generators: between 1 and 100.
pub open spec fn pesos_validos(s: Seq<u32>) -> bool {
    forall|i: int| 0 <= i < s.len() ==> 1 <= #[trigger] s[i] <= 100
}

pub proof fn lemma_soma_pesos_validos(s: Seq<u32>)
    requires
        pesos_validos(s),
    ensures
        s.len() <= soma(s) <= 100 * s.len(),
    decreases s.len(),
{
    if s.len() > 0 {
        assert(pesos_validos(s.drop_last())) by {
            assert(forall|i: int|
                0 <= i < s.len() - 1 ==> s.drop_last()[i] == #[trigger] s[i]);
        }
        lemma_soma_pesos_validos(s.drop_last());
    }
}

impl Maquina {
    /// The tasks the machine actually holds: the occupied prefix.
    pub open spec fn ativas(self) -> Seq<u32> {
        self.tarefas@.subrange(0, self.pos + 1)
    }

    /// How many tasks the machine holds.
    pub open spec fn n_ativas(self) -> int {
        self.pos + 1
    }

    /// The machine's load: the sum of the tasks it holds.
    pub open spec fn carga(self) -> int {
        soma(self.ativas())
    }

    /// Structural invariant: `pos` points into the buffer (or just before
    /// it), and the buffer is small enough for `pos` to index it as an `i32`.
    pub open spec fn wf(self) -> bool {
        &&& -1 <= self.pos
        &&& self.pos < self.tarefas@.len()
        &&& self.tarefas@.len() <= i32::MAX
    }

    /// A fresh machine with capacity for `n` tasks and none assigned.
    pub fn new(n: usize) -> (m: Maquina)
        requires
            n <= i32::MAX,
        ensures
            m.wf(),
            m.tarefas@.len() == n,
            forall|i: int| 0 <= i < n ==> m.tarefas@[i] == 0,
            m.pos == -1,
            m.n_ativas() == 0,
            m.carga() == 0,
    {
        let mut tarefas: Vec<u32> = Vec::new();
        let mut i: usize = 0;
        while i < n
            invariant
                i <= n,
                tarefas@.len() == i,
                forall|j: int| 0 <= j < i ==> tarefas@[j] == 0,
            decreases n - i,
        {
            tarefas.push(0);
            i = i + 1;
        }
        let m = Maquina { tarefas, pos: -1 };
        proof {
            assert(m.ativas() =~= Seq::<u32>::empty());
        }
        m
    }

    /// The machine's load, computed over the occupied prefix.
    pub fn ms_maquina(&self) -> (r: u32)
        requires
            self.wf(),
            self.carga() <= u32::MAX,
        ensures
            r == self.carga(),
    {
        if self.pos < 0 {
            proof {
                assert(self.ativas() =~= Seq::<u32>::empty());
            }
            return 0;
        }
        let fim: usize = self.pos as usize;
        let mut acc: u32 = 0;
        let mut i: usize = 0;
        while i <= fim
            invariant
                self.wf(),
                0 <= self.pos,
                fim == self.pos,
                self.carga() <= u32::MAX,
                i <= fim + 1,
                acc == soma(self.tarefas@.subrange(0, i as int)),
            decreases fim + 1 - i,
        {
            proof {
                assert(self.tarefas@.subrange(0, i + 1).drop_last() =~= self.tarefas@.subrange(
                    0,
                    i as int,
                ));
                lemma_soma_prefixo(self.tarefas@, i + 1, fim + 1);
            }
            acc = acc + self.tarefas[i];
            i = i + 1;
        }
        acc
    }
}

// ---------------------------------------------------------------------------
// Aggregates over a whole solution
// ---------------------------------------------------------------------------

/// Sum of all machine loads.
pub open spec fn carga_total(ms: Seq<Maquina>) -> int
    decreases ms.len(),
{
    if ms.len() == 0 {
        0
    } else {
        carga_total(ms.drop_last()) + ms.last().carga()
    }
}

/// The makespan: the largest machine load (0 for an empty solution).
pub open spec fn carga_max(ms: Seq<Maquina>) -> int
    decreases ms.len(),
{
    if ms.len() == 0 {
        0
    } else if ms.last().carga() > carga_max(ms.drop_last()) {
        ms.last().carga()
    } else {
        carga_max(ms.drop_last())
    }
}

/// Total number of assigned tasks.
pub open spec fn contagem_total(ms: Seq<Maquina>) -> int
    decreases ms.len(),
{
    if ms.len() == 0 {
        0
    } else {
        contagem_total(ms.drop_last()) + ms.last().n_ativas()
    }
}

/// Every machine is well formed and its load fits the accounting type.
pub open spec fn cargas_ok(ms: Seq<Maquina>) -> bool {
    forall|i: int|
        0 <= i < ms.len() ==> (#[trigger] ms[i]).wf() && ms[i].carga() <= u32::MAX
}

/// Every task value a solution holds, with multiplicity.
pub open spec fn tarefas_em(ms: Seq<Maquina>) -> Multiset<u32>
    decreases ms.len(),
{
    if ms.len() == 0 {
        Multiset::empty()
    } else {
        tarefas_em(ms.drop_last()).add(ms.last().ativas().to_multiset())
    }
}

/// Replacing one machine trades its tasks for the new machine's tasks.
pub proof fn lemma_tarefas_em_update(ms: Seq<Maquina>, i: int, m: Maquina)
    requires
        0 <= i < ms.len(),
    ensures
        tarefas_em(ms.update(i, m)).add(ms[i].ativas().to_multiset()) == tarefas_em(ms).add(
            m.ativas().to_multiset(),
        ),
    decreases ms.len(),
{
    if i == ms.len() - 1 {
        assert(ms.update(i, m).drop_last() =~= ms.drop_last());
        assert(tarefas_em(ms.update(i, m)).add(ms[i].ativas().to_multiset()) =~= tarefas_em(
            ms,
        ).add(m.ativas().to_multiset()));
    } else {
        assert(ms.update(i, m).drop_last() =~= ms.drop_last().update(i, m));
        assert(ms.update(i, m).last() == ms.last());
        assert(ms.drop_last()[i] == ms[i]);
        lemma_tarefas_em_update(ms.drop_last(), i, m);
        assert forall|x: u32|
            tarefas_em(ms.update(i, m)).add(ms[i].ativas().to_multiset()).count(x) == tarefas_em(
                ms,
            ).add(m.ativas().to_multiset()).count(x) by {
            assert(tarefas_em(ms.drop_last().update(i, m)).add(
                ms.drop_last()[i].ativas().to_multiset(),
            ).count(x) == tarefas_em(ms.drop_last()).add(m.ativas().to_multiset()).count(x));
        }
        assert(tarefas_em(ms.update(i, m)).add(ms[i].ativas().to_multiset()) =~= tarefas_em(
            ms,
        ).add(m.ativas().to_multiset()));
    }
}

/// Well-formed solution: at least one machine, all machines share one buffer
/// capacity, the assigned tasks fit that capacity, and the total weight fits
/// the accounting type.  Machine 0 is the designated source machine.
pub open spec fn solucao_wf(ms: Seq<Maquina>) -> bool {
    &&& 1 <= ms.len()
    &&& forall|i: int|
        0 <= i < ms.len() ==> (#[trigger] ms[i]).wf() && ms[i].tarefas@.len()
            == ms[0].tarefas@.len()
    &&& contagem_total(ms) <= ms[0].tarefas@.len()
    &&& carga_total(ms) <= u32::MAX
}

pub proof fn lemma_carga_total_nonneg(ms: Seq<Maquina>)
    ensures
        carga_total(ms) >= 0,
    decreases ms.len(),
{
    if ms.len() > 0 {
        lemma_carga_total_nonneg(ms.drop_last());
        lemma_soma_nonneg(ms.last().ativas());
    }
}

/// Each machine's load is at most the sum of all loads.
pub proof fn lemma_carga_le_total(ms: Seq<Maquina>, i: int)
    requires
        0 <= i < ms.len(),
    ensures
        ms[i].carga() <= carga_total(ms),
    decreases ms.len(),
{
    if i == ms.len() - 1 {
        lemma_carga_total_nonneg(ms.drop_last());
    } else {
        lemma_carga_le_total(ms.drop_last(), i);
        lemma_soma_nonneg(ms.last().ativas());
    }
}

/// Two distinct machines' loads together are at most the sum of all loads.
pub proof fn lemma_carga_par_le_total(ms: Seq<Maquina>, i: int, j: int)
    requires
        0 <= i < ms.len(),
        0 <= j < ms.len(),
        i != j,
    ensures
        ms[i].carga() + ms[j].carga() <= carga_total(ms),
    decreases ms.len(),
{
    if i == ms.len() - 1 {
        lemma_carga_le_total(ms.drop_last(), j);
    } else if j == ms.len() - 1 {
        lemma_carga_le_total(ms.drop_last(), i);
    } else {
        lemma_carga_par_le_total(ms.drop_last(), i, j);
        lemma_soma_nonneg(ms.last().ativas());
    }
}

/// The makespan dominates every machine's load.
pub proof fn lemma_carga_max_ge(ms: Seq<Maquina>, i: int)
    requires
        0 <= i < ms.len(),
    ensures
        ms[i].carga() <= carga_max(ms),
    decreases ms.len(),
{
    if i < ms.len() - 1 {
        lemma_carga_max_ge(ms.drop_last(), i);
    }
}

/// A bound on every machine's load is a bound on the makespan.
pub proof fn lemma_carga_max_le(ms: Seq<Maquina>, b: int)
    requires
        b >= 0,
        forall|i: int| 0 <= i < ms.len() ==> (#[trigger] ms[i]).carga() <= b,
    ensures
        carga_max(ms) <= b,
    decreases ms.len(),
{
    if ms.len() > 0 {
        assert(forall|i: int|
            0 <= i < ms.len() - 1 ==> (#[trigger] ms.drop_last()[i]).carga() <= b);
        lemma_carga_max_le(ms.drop_last(), b);
    }
}

pub proof fn lemma_carga_total_push(ms: Seq<Maquina>, m: Maquina)
    ensures
        carga_total(ms.push(m)) == carga_total(ms) + m.carga(),
{
    assert(ms.push(m).drop_last() =~= ms);
}

pub proof fn lemma_contagem_push(ms: Seq<Maquina>, m: Maquina)
    ensures
        contagem_total(ms.push(m)) == contagem_total(ms) + m.n_ativas(),
{
    assert(ms.push(m).drop_last() =~= ms);
}

/// The total load never exceeds the machine count times the makespan.
pub proof fn lemma_total_le_max(ms: Seq<Maquina>)
    ensures
        carga_total(ms) <= ms.len() * carga_max(ms),
    decreases ms.len(),
{
    if ms.len() > 0 {
        lemma_total_le_max(ms.drop_last());
        assert((ms.len() - 1) * carga_max(ms.drop_last()) <= (ms.len() - 1) * carga_max(ms))
            by (nonlinear_arith)
            requires
                carga_max(ms.drop_last()) <= carga_max(ms),
                ms.len() >= 1,
        ;
        assert((ms.len() - 1) * carga_max(ms) + carga_max(ms) == ms.len() * carga_max(ms))
            by (nonlinear_arith);
    }
}

/// A positive total load pins a machine with positive load.
pub proof fn lemma_carga_total_pos(ms: Seq<Maquina>)
    requires
        carga_total(ms) > 0,
    ensures
        exists|i: int| 0 <= i < ms.len() && (#[trigger] ms[i]).carga() > 0,
    decreases ms.len(),
{
    if ms.len() > 0 {
        if ms.last().carga() > 0 {
            assert(ms[ms.len() - 1].carga() > 0);
        } else {
            lemma_carga_total_pos(ms.drop_last());
            let i = choose|i: int|
                0 <= i < ms.len() - 1 && (#[trigger] ms.drop_last()[i]).carga() > 0;
            assert(ms[i].carga() > 0);
        }
    }
}

/// Replacing one machine shifts the total load by the load difference.
pub proof fn lemma_carga_total_update(ms: Seq<Maquina>, i: int, m: Maquina)
    requires
        0 <= i < ms.len(),
    ensures
        carga_total(ms.update(i, m)) == carga_total(ms) - ms[i].carga() + m.carga(),
    decreases ms.len(),
{
    if i == ms.len() - 1 {
        assert(ms.update(i, m).drop_last() =~= ms.drop_last());
    } else {
        assert(ms.update(i, m).drop_last() =~= ms.drop_last().update(i, m));
        assert(ms.update(i, m).last() == ms.last());
        lemma_carga_total_update(ms.drop_last(), i, m);
    }
}

/// Replacing one machine shifts the task count by the count difference.
pub proof fn lemma_contagem_update(ms: Seq<Maquina>, i: int, m: Maquina)
    requires
        0 <= i < ms.len(),
    ensures
        contagem_total(ms.update(i, m)) == contagem_total(ms) - ms[i].n_ativas() + m.n_ativas(),
    decreases ms.len(),
{
    if i == ms.len() - 1 {
        assert(ms.update(i, m).drop_last() =~= ms.drop_last());
    } else {
        assert(ms.update(i, m).drop_last() =~= ms.drop_last().update(i, m));
        assert(ms.update(i, m).last() == ms.last());
        lemma_contagem_update(ms.drop_last(), i, m);
    }
}

/// Each machine's task count is at most the total count (all counts are
/// nonnegative under well-formedness).
pub proof fn lemma_contagem_le_total(ms: Seq<Maquina>, i: int)
    requires
        0 <= i < ms.len(),
        forall|k: int| 0 <= k < ms.len() ==> (#[trigger] ms[k]).wf(),
    ensures
        ms[i].n_ativas() <= contagem_total(ms),
    decreases ms.len(),
{
    if i == ms.len() - 1 {
        lemma_contagem_nonneg(ms.drop_last());
    } else {
        lemma_contagem_le_total(ms.drop_last(), i);
    }
}

pub proof fn lemma_contagem_nonneg(ms: Seq<Maquina>)
    requires
        forall|k: int| 0 <= k < ms.len() ==> (#[trigger] ms[k]).wf(),
    ensures
        contagem_total(ms) >= 0,
    decreases ms.len(),
{
    if ms.len() > 0 {
        lemma_contagem_nonneg(ms.drop_last());
    }
}

/// Two distinct machines' task counts together are at most the total count.
pub proof fn lemma_contagem_par_le_total(ms: Seq<Maquina>, i: int, j: int)
    requires
        0 <= i < ms.len(),
        0 <= j < ms.len(),
        i != j,
        forall|k: int| 0 <= k < ms.len() ==> (#[trigger] ms[k]).wf(),
    ensures
        ms[i].n_ativas() + ms[j].n_ativas() <= contagem_total(ms),
    decreases ms.len(),
{
    if i == ms.len() - 1 {
        lemma_contagem_le_total(ms.drop_last(), j);
    } else if j == ms.len() - 1 {
        lemma_contagem_le_total(ms.drop_last(), i);
    } else {
        lemma_contagem_par_le_total(ms.drop_last(), i, j);
    }
}

/// A positive task count pins a machine that holds a task.
pub proof fn lemma_contagem_pos(ms: Seq<Maquina>)
    requires
        contagem_total(ms) >= 1,
        forall|k: int| 0 <= k < ms.len() ==> (#[trigger] ms[k]).wf(),
    ensures
        exists|k: int| 0 <= k < ms.len() && (#[trigger] ms[k]).pos >= 0,
    decreases ms.len(),
{
    if ms.len() > 0 {
        if ms.last().n_ativas() >= 1 {
            assert(ms[ms.len() - 1].pos >= 0);
        } else {
            lemma_contagem_pos(ms.drop_last());
            let k = choose|k: int| 0 <= k < ms.len() - 1 && (#[trigger] ms.drop_last()[k]).pos
                >= 0;
            assert(ms[k].pos >= 0);
        }
    }
}

/// In a well-formed solution every machine's load fits in a `u32`.
pub proof fn lemma_wf_cargas_ok(ms: Seq<Maquina>)
    requires
        solucao_wf(ms),
    ensures
        cargas_ok(ms),
{
    assert forall|i: int| 0 <= i < ms.len() implies (#[trigger] ms[i]).wf() && ms[i].carga()
        <= u32::MAX by {
        lemma_carga_le_total(ms, i);
        lemma_carga_total_nonneg(ms);
    }
}

// ---------------------------------------------------------------------------
// Queries shared by both algorithms
// ---------------------------------------------------------------------------

/// First index of a least-loaded machine (0 for an empty solution): the
/// choice `pos_ms_min` makes.
pub open spec fn indice_min(ms: Seq<Maquina>) -> int
    decreases ms.len(),
{
    if ms.len() <= 1 {
        0
    } else if ms.last().carga() < ms[indice_min(ms.drop_last())].carga() {
        ms.len() - 1
    } else {
        indice_min(ms.drop_last())
    }
}

pub proof fn lemma_indice_min_props(ms: Seq<Maquina>)
    requires
        ms.len() >= 1,
    ensures
        0 <= indice_min(ms) < ms.len(),
        forall|j: int|
            0 <= j < ms.len() ==> ms[indice_min(ms)].carga() <= (#[trigger] ms[j]).carga(),
        forall|j: int|
            0 <= j < indice_min(ms) ==> (#[trigger] ms[j]).carga() > ms[indice_min(ms)].carga(),
    decreases ms.len(),
{
    if ms.len() > 1 {
        lemma_indice_min_props(ms.drop_last());
        assert(forall|j: int|
            0 <= j < ms.len() - 1 ==> #[trigger] ms[j] == ms.drop_last()[j]);
    }
}

/// First index of the heaviest positive slot in `s` (-1 when every slot is
/// 0): the choice `search_max_value` makes with the filter off.
pub open spec fn indice_max_tarefa(s: Seq<u32>) -> int
    decreases s.len(),
{
    if s.len() == 0 {
        -1
    } else if s.last() > 0 && (indice_max_tarefa(s.drop_last()) == -1 || s.last() > s[
    indice_max_tarefa(s.drop_last())]) {
        s.len() - 1
    } else {
        indice_max_tarefa(s.drop_last())
    }
}

pub proof fn lemma_indice_max_props(s: Seq<u32>)
    ensures
        -1 <= indice_max_tarefa(s) < s.len(),
        indice_max_tarefa(s) == -1 ==> forall|i: int| !candidato(s, 0, i),
        indice_max_tarefa(s) >= 0 ==> candidato(s, 0, indice_max_tarefa(s)),
        indice_max_tarefa(s) >= 0 ==> forall|i: int|
            candidato(s, 0, i) ==> s[i] <= s[indice_max_tarefa(s)],
        indice_max_tarefa(s) >= 0 ==> forall|i: int|
            0 <= i < indice_max_tarefa(s) && candidato(s, 0, i) ==> s[i] < s[indice_max_tarefa(
                s,
            )],
    decreases s.len(),
{
    if s.len() > 0 {
        lemma_indice_max_props(s.drop_last());
        assert(forall|i: int|
            0 <= i < s.len() - 1 ==> #[trigger] s[i] == s.drop_last()[i]);
        assert(forall|i: int|
            0 <= i < s.len() - 1 ==> (candidato(s, 0, i) <==> candidato(s.drop_last(), 0, i)));
    }
}

/// The makespan of the whole solution.
pub fn ms_total(maquinas: &Vec<Maquina>) -> (r: u32)
    requires
        cargas_ok(maquinas@),
    ensures
        r == carga_max(maquinas@),
{
    let mut r: u32 = 0;
    let mut i: usize = 0;
    while i < maquinas.len()
        invariant
            cargas_ok(maquinas@),
            i <= maquinas@.len(),
            r == carga_max(maquinas@.subrange(0, i as int)),
        decreases maquinas@.len() - i,
    {
        let c = maquinas[i].ms_maquina();
        proof {
            assert(maquinas@.subrange(0, i + 1).drop_last() =~= maquinas@.subrange(0, i as int));
            assert(maquinas@.subrange(0, i + 1).last() == maquinas@[i as int]);
        }
        if c > r {
            r = c;
        }
        i = i + 1;
    }
    proof {
        assert(maquinas@.subrange(0, maquinas@.len() as int) =~= maquinas@);
    }
    r
}

/// Index of the least-loaded machine; the first occurrence wins ties.
/// Returns 0 for an empty solution.
pub fn pos_ms_min(maquinas: &Vec<Maquina>) -> (r: usize)
    requires
        cargas_ok(maquinas@),
    ensures
        maquinas@.len() == 0 ==> r == 0,
        maquinas@.len() > 0 ==> r < maquinas@.len(),
        maquinas@.len() > 0 ==> forall|j: int|
            0 <= j < maquinas@.len() ==> maquinas@[r as int].carga() <= (
            #[trigger] maquinas@[j]).carga(),
        maquinas@.len() > 0 ==> forall|j: int|
            0 <= j < r ==> (#[trigger] maquinas@[j]).carga() > maquinas@[r as int].carga(),
        r == indice_min(maquinas@),
{
    if maquinas.len() == 0 {
        return 0;
    }
    let mut melhor: usize = 0;
    let mut melhor_carga: u32 = maquinas[0].ms_maquina();
    let mut i: usize = 1;
    while i < maquinas.len()
        invariant
            cargas_ok(maquinas@),
            1 <= i <= maquinas@.len(),
            melhor < i,
            melhor_carga == maquinas@[melhor as int].carga(),
            forall|j: int| 0 <= j < i ==> melhor_carga <= (#[trigger] maquinas@[j]).carga(),
            forall|j: int| 0 <= j < melhor ==> (#[trigger] maquinas@[j]).carga() > melhor_carga,
        decreases maquinas@.len() - i,
    {
        let c = maquinas[i].ms_maquina();
        if c < melhor_carga {
            melhor = i;
            melhor_carga = c;
        }
        i = i + 1;
    }
    proof {
        lemma_indice_min_props(maquinas@);
        let im = indice_min(maquinas@);
        if im < melhor {
            assert(maquinas@[im as int].carga() > melhor_carga);
        }
        if melhor < im {
            assert(maquinas@[melhor as int].carga() > maquinas@[im].carga());
        }
    }
    melhor
}

/// Whether slot `i` of the occupied prefix `s` passes the search filter:
/// a positive weight, below `filtrar_menor` when that bound is set.
pub open spec fn candidato(s: Seq<u32>, filtrar_menor: u32, i: int) -> bool {
    0 <= i < s.len() && s[i] > 0 && (filtrar_menor == 0 || s[i] < filtrar_menor)
}

/// Position of the heaviest task on `maquina` that passes the filter; the
/// first occurrence wins ties.  Returns -1 when no task passes.
pub fn search_max_value(maquina: &Maquina, filtrar_menor: u32) -> (r: i32)
    requires
        maquina.wf(),
        maquina.pos >= 0,
    ensures
        -1 <= r,
        r == -1 ==> forall|i: int| !candidato(maquina.ativas(), filtrar_menor, i),
        r >= 0 ==> candidato(maquina.ativas(), filtrar_menor, r as int),
        r >= 0 ==> forall|i: int|
            candidato(maquina.ativas(), filtrar_menor, i) ==> maquina.ativas()[i]
                <= maquina.ativas()[r as int],
        r >= 0 ==> forall|i: int|
            0 <= i < r && candidato(maquina.ativas(), filtrar_menor, i) ==> maquina.ativas()[i]
                < maquina.ativas()[r as int],
        filtrar_menor == 0 ==> r == indice_max_tarefa(maquina.ativas()),
{
    let mut pos: i32 = -1;
    let mut valor: u32 = 0;
    let fim: usize = maquina.pos as usize;
    let mut i: usize = 0;
    while i <= fim
        invariant
            maquina.wf(),
            0 <= maquina.pos,
            fim == maquina.pos,
            i <= fim + 1,
            -1 <= pos,
            pos == -1 ==> valor == 0,
            pos >= 0 ==> 0 <= pos < i && candidato(maquina.ativas(), filtrar_menor, pos as int)
                && valor == maquina.ativas()[pos as int],
            forall|j: int|
                0 <= j < i && candidato(maquina.ativas(), filtrar_menor, j)
                    ==> maquina.ativas()[j] <= valor,
            forall|j: int|
                0 <= j < pos && candidato(maquina.ativas(), filtrar_menor, j)
                    ==> maquina.ativas()[j] < valor,
        decreases fim + 1 - i,
    {
        let v = maquina.tarefas[i];
        let ghost valor_antes = valor;
        proof {
            assert(maquina.ativas()[i as int] == maquina.tarefas@[i as int]);
        }
        if v > valor && (filtrar_menor == 0 || v < filtrar_menor) {
            valor = v;
            pos = i as i32;
            proof {
                assert forall|j: int|
                    0 <= j < pos && candidato(maquina.ativas(), filtrar_menor, j)
                        implies maquina.ativas()[j] < valor by {
                    assert(maquina.ativas()[j] <= valor_antes);
                }
            }
        }
        i = i + 1;
    }
    if pos == -1 {
        proof {
            assert forall|j: int| !candidato(maquina.ativas(), filtrar_menor, j) by {
                if candidato(maquina.ativas(), filtrar_menor, j) {
                    assert(maquina.ativas()[j] <= valor);
                }
            }
        }
    }
    proof {
        if filtrar_menor == 0 {
            lemma_indice_max_props(maquina.ativas());
            let im = indice_max_tarefa(maquina.ativas());
            if pos == -1 && im >= 0 {
                assert(candidato(maquina.ativas(), 0, im));
            }
            if pos >= 0 {
                if im < pos {
                    assert(maquina.ativas()[im] < maquina.ativas()[pos as int]);
                    assert(maquina.ativas()[pos as int] <= maquina.ativas()[im]);
                }
                if pos < im {
                    assert(maquina.ativas()[pos as int] < maquina.ativas()[im]);
                    assert(maquina.ativas()[im] <= maquina.ativas()[pos as int]);
                }
            }
        }
    }
    pos
}

// ---------------------------------------------------------------------------
// The one mutation both algorithms perform: relocating a task
// ---------------------------------------------------------------------------

/// Moves the task at slot `pos_tarefa` of machine `origem` to the end of
/// machine `destino`'s tasks, preserving the relative order of the tasks that
/// stay behind.  Total load and total task count are conserved.
pub fn mover_tarefa(
    maquinas: &mut Vec<Maquina>,
    origem: usize,
    destino: usize,
    pos_tarefa: usize,
) -> (tarefa: u32)
    requires
        solucao_wf(old(maquinas)@),
        origem < old(maquinas)@.len(),
        destino < old(maquinas)@.len(),
        pos_tarefa < old(maquinas)@[origem as int].n_ativas(),
        origem != destino ==> old(maquinas)@[destino as int].n_ativas() < old(maquinas)@[destino as int].tarefas@.len(),
    ensures
        solucao_wf(final(maquinas)@),
        final(maquinas)@.len() == old(maquinas)@.len(),
        forall|k: int|
            0 <= k < old(maquinas)@.len() ==> (#[trigger] final(maquinas)@[k]).tarefas@.len()
                == old(maquinas)@[k].tarefas@.len(),
        tarefa == old(maquinas)@[origem as int].ativas()[pos_tarefa as int],
        carga_total(final(maquinas)@) == carga_total(old(maquinas)@),
        contagem_total(final(maquinas)@) == contagem_total(old(maquinas)@),
        tarefas_em(final(maquinas)@) == tarefas_em(old(maquinas)@),
        forall|k: int|
            0 <= k < old(maquinas)@.len() && k != origem && k != destino
                ==> #[trigger] final(maquinas)@[k] == old(maquinas)@[k],
        origem != destino ==> final(maquinas)@[origem as int].ativas()
            == old(maquinas)@[origem as int].ativas().remove(pos_tarefa as int),
        origem != destino ==> final(maquinas)@[destino as int].ativas()
            == old(maquinas)@[destino as int].ativas().push(tarefa),
        origem != destino ==> final(maquinas)@[origem as int].carga()
            == old(maquinas)@[origem as int].carga() - tarefa,
        origem != destino ==> final(maquinas)@[destino as int].carga()
            == old(maquinas)@[destino as int].carga() + tarefa,
        origem != destino ==> final(maquinas)@[origem as int].n_ativas()
            == old(maquinas)@[origem as int].n_ativas() - 1,
        origem != destino ==> final(maquinas)@[destino as int].n_ativas()
            == old(maquinas)@[destino as int].n_ativas() + 1,
        origem == destino ==> final(maquinas)@[origem as int].ativas()
            == old(maquinas)@[origem as int].ativas().remove(pos_tarefa as int).push(tarefa),
        origem == destino ==> final(maquinas)@[origem as int].carga()
            == old(maquinas)@[origem as int].carga(),
        origem == destino ==> final(maquinas)@[origem as int].n_ativas()
            == old(maquinas)@[origem as int].n_ativas(),
{
    let ghost antes = maquinas@;
    let ghost o = maquinas@[origem as int];
    let tarefa: u32;
    {
        let m = &mut maquinas[origem];
        tarefa = m.tarefas.remove(pos_tarefa);
        m.tarefas.push(0);
        m.pos = m.pos - 1;
    }
    let ghost o2 = maquinas@[origem as int];
    proof {
        assert(o2.ativas() =~= o.ativas().remove(pos_tarefa as int)) by {
            assert(forall|j: int|
                0 <= j < o.pos ==> o2.tarefas@[j] == #[trigger] o.ativas().remove(
                    pos_tarefa as int,
                )[j]);
        }
        assert(o.ativas()[pos_tarefa as int] == o.tarefas@[pos_tarefa as int]);
        lemma_soma_remove(o.ativas(), pos_tarefa as int);
        lemma_carga_total_update(antes, origem as int, o2);
        lemma_contagem_update(antes, origem as int, o2);
    }
    let ghost meio = maquinas@;
    {
        let m = &mut maquinas[destino];
        proof {
            if origem != destino {
                lemma_contagem_par_le_total(antes, origem as int, destino as int);
            } else {
                lemma_contagem_le_total(antes, origem as int);
                lemma_contagem_nonneg(antes);
            }
        }
        m.pos = m.pos + 1;
        let idx: usize = m.pos as usize;
        m.tarefas[idx] = tarefa;
    }
    let ghost d = meio[destino as int];
    let ghost d2 = maquinas@[destino as int];
    proof {
        assert(d2.ativas() =~= d.ativas().push(tarefa)) by {
            assert(forall|j: int|
                0 <= j <= d.pos ==> d2.tarefas@[j] == #[trigger] d.ativas().push(tarefa)[j]);
            assert(d2.tarefas@[d.pos + 1] == tarefa);
        }
        lemma_soma_push(d.ativas(), tarefa);
        lemma_carga_total_update(meio, destino as int, d2);
        lemma_contagem_update(meio, destino as int, d2);
        assert(final(maquinas)@ == meio.update(destino as int, d2));
        if origem != destino {
            assert(final(maquinas)@[origem as int] == o2);
        }
        lemma_carga_total_nonneg(final(maquinas)@);
        lemma_soma_nonneg(o.ativas().remove(pos_tarefa as int));
        lemma_tarefas_em_update(antes, origem as int, o2);
        lemma_tarefas_em_update(meio, destino as int, d2);
        assert(o.ativas().contains(tarefa)) by {
            assert(o.ativas()[pos_tarefa as int] == tarefa);
        }
        assert(o2.ativas().to_multiset() == o.ativas().remove(pos_tarefa as int).to_multiset());
        assert(d2.ativas().to_multiset() == d.ativas().push(tarefa).to_multiset());
        assert forall|x: u32|
            tarefas_em(final(maquinas)@).count(x) == tarefas_em(antes).count(x) by {
            assert(tarefas_em(meio).add(o.ativas().to_multiset()).count(x) == tarefas_em(
                antes,
            ).add(o2.ativas().to_multiset()).count(x));
            assert(tarefas_em(final(maquinas)@).add(d.ativas().to_multiset()).count(x)
                == tarefas_em(meio).add(d2.ativas().to_multiset()).count(x));
        }
        assert(tarefas_em(final(maquinas)@) =~= tarefas_em(antes));
    }
    tarefa
}

/// The effect `mover_tarefa` has, stated over the active sequences: the task
/// at slot `p` of `origem` leaves (the rest keep their order) and lands at
/// the end of `destino`; every other machine is untouched.
pub open spec fn movimento(
    antes: Seq<Maquina>,
    depois: Seq<Maquina>,
    origem: int,
    destino: int,
    p: int,
) -> bool {
    &&& depois.len() == antes.len()
    &&& 0 <= origem < antes.len()
    &&& 0 <= destino < antes.len()
    &&& 0 <= p < antes[origem].n_ativas()
    &&& forall|k: int|
        0 <= k < antes.len() ==> (#[trigger] depois[k]).tarefas@.len() == antes[k].tarefas@.len()
    &&& forall|k: int|
        0 <= k < antes.len() && k != origem && k != destino ==> (#[trigger] depois[k]).ativas()
            == antes[k].ativas() && depois[k].n_ativas() == antes[k].n_ativas()
    &&& origem != destino ==> depois[origem].ativas() == antes[origem].ativas().remove(p)
        && depois[origem].n_ativas() == antes[origem].n_ativas() - 1
    &&& origem != destino ==> depois[destino].ativas() == antes[destino].ativas().push(
        antes[origem].ativas()[p],
    ) && depois[destino].n_ativas() == antes[destino].n_ativas() + 1
    &&& origem == destino ==> depois[origem].ativas() == antes[origem].ativas().remove(p).push(
        antes[origem].ativas()[p],
    ) && depois[origem].n_ativas() == antes[origem].n_ativas()
}

/// One accepted move of the local-search engine: the first heaviest task of
/// the source machine 0 goes to the first least-loaded machine, and only
/// because that cannot raise the current makespan.
pub open spec fn passo_busca(antes: Seq<Maquina>, depois: Seq<Maquina>) -> bool {
    &&& 1 <= antes.len()
    &&& indice_min(antes) != 0
    &&& indice_max_tarefa(antes[0].ativas()) >= 0
    &&& antes[indice_min(antes)].carga() + antes[0].ativas()[indice_max_tarefa(
        antes[0].ativas(),
    )] <= carga_max(antes)
    &&& movimento(antes, depois, 0, indice_min(antes), indice_max_tarefa(antes[0].ativas()))
}

/// `depois` is reached from `antes` by exactly `passos` engine moves.
pub open spec fn busca_alcanca(antes: Seq<Maquina>, depois: Seq<Maquina>, passos: nat) -> bool
    decreases passos,
{
    if passos == 0 {
        antes == depois
    } else {
        exists|meio: Seq<Maquina>|
            #[trigger] passo_busca(antes, meio) && busca_alcanca(meio, depois, (passos - 1) as nat)
    }
}

/// A chain of engine moves grows by one at its end.
pub proof fn lemma_busca_alcanca_estende(
    a: Seq<Maquina>,
    b: Seq<Maquina>,
    c: Seq<Maquina>,
    k: nat,
)
    requires
        busca_alcanca(a, b, k),
        passo_busca(b, c),
    ensures
        busca_alcanca(a, c, (k + 1) as nat),
    decreases k,
{
    if k == 0 {
        assert(passo_busca(a, c) && busca_alcanca(c, c, 0));
    } else {
        let meio = choose|meio: Seq<Maquina>|
            #[trigger] passo_busca(a, meio) && busca_alcanca(meio, b, (k - 1) as nat);
        lemma_busca_alcanca_estende(meio, b, c, (k - 1) as nat);
        assert(passo_busca(a, meio) && busca_alcanca(meio, c, k));
    }
}

// ---------------------------------------------------------------------------
// The shared best-improvement engine
// ---------------------------------------------------------------------------

/// Why the transfer loop is allowed to stop: some least-loaded machine `p`
/// is the source machine itself, or the source offers no positive task, or
/// its heaviest task `q` would push `p`'s load past the current makespan.
pub open spec fn busca_encerrada(ms: Seq<Maquina>) -> bool {
    exists|p: int|
        #![trigger ms[p]]
        0 <= p < ms.len() && (forall|j: int|
            0 <= j < ms.len() ==> ms[p].carga() <= (#[trigger] ms[j]).carga()) && (p == 0 || (
        forall|i: int| !candidato(ms[0].ativas(), 0, i)) || (exists|q: int|
            candidato(ms[0].ativas(), 0, q) && ms[p].carga() + ms[0].ativas()[q] > carga_max(ms)))
}

proof fn lemma_encerrada(ms: Seq<Maquina>, p: int, q: int)
    requires
        0 <= p < ms.len(),
        forall|j: int| 0 <= j < ms.len() ==> ms[p].carga() <= (#[trigger] ms[j]).carga(),
        p == 0 || (forall|i: int| !candidato(ms[0].ativas(), 0, i)) || (candidato(
            ms[0].ativas(),
            0,
            q,
        ) && ms[p].carga() + ms[0].ativas()[q] > carga_max(ms)),
    ensures
        busca_encerrada(ms),
{
}

/// The best-improvement transfer loop both algorithms share: while the
/// least-loaded machine is not the source machine 0 and moving the heaviest
/// task of machine 0 there cannot raise the makespan, move it.  Every
/// accepted move is one `passo_busca`, so the final state is pinned up to
/// the spare buffer slots; total load, task count and the task multiset are
/// conserved, and the makespan never increases.  With `emitir_iteracao` the
/// loop also closes each accepted move with an iteration-complete event, as
/// the best-improvement driver records it.
pub(crate) fn motor_busca(
    maquinas: &mut Vec<Maquina>,
    log: &mut EventLog,
    emitir_iteracao: bool,
) -> (moves: usize)
    requires
        solucao_wf(old(maquinas)@),
    ensures
        solucao_wf(final(maquinas)@),
        final(maquinas)@.len() == old(maquinas)@.len(),
        forall|k: int|
            0 <= k < old(maquinas)@.len() ==> (#[trigger] final(maquinas)@[k]).tarefas@.len()
                == old(maquinas)@[k].tarefas@.len(),
        carga_total(final(maquinas)@) == carga_total(old(maquinas)@),
        contagem_total(final(maquinas)@) == contagem_total(old(maquinas)@),
        tarefas_em(final(maquinas)@) == tarefas_em(old(maquinas)@),
        carga_max(final(maquinas)@) <= carga_max(old(maquinas)@),
        busca_encerrada(final(maquinas)@),
        busca_alcanca(old(maquinas)@, final(maquinas)@, moves as nat),
        moves <= old(maquinas)@[0].n_ativas(),
        final(log).enabled == old(log).enabled,
        old(log).events@.is_prefix_of(final(log).events@),
        !old(log).enabled ==> final(log).events@ == old(log).events@,
        old(log).enabled ==> final(log).events@.len() > old(log).events@.len() && eh_snapshot(
            final(log).events@.last(),
        ) && instantanea_de(maquinas_do_snapshot(final(log).events@.last()), final(maquinas)@),
        old(log).enabled ==> conta_tipo(final(log).events@, TipoEvento::Movida) == conta_tipo(
            old(log).events@,
            TipoEvento::Movida,
        ) + moves,
        sufixo_movidas_validas(final(log).events@, old(log).events@.len() as int),
        forall|k: TipoEvento|
            k != TipoEvento::Comparacao && k != TipoEvento::Avaliacao && k != TipoEvento::Movida
                && k != TipoEvento::IteracaoCompleta && k != TipoEvento::Instantaneo
                ==> #[trigger] conta_tipo(final(log).events@, k) == conta_tipo(
                old(log).events@,
                k,
            ),
        !emitir_iteracao ==> conta_tipo(final(log).events@, TipoEvento::IteracaoCompleta)
            == conta_tipo(old(log).events@, TipoEvento::IteracaoCompleta),
{
    proof {
        lemma_prefixo_refl(old(log).events@);
    }
    let mut moves: usize = 0;
    loop
        invariant
            solucao_wf(maquinas@),
            maquinas@.len() == old(maquinas)@.len(),
            forall|k: int|
                0 <= k < old(maquinas)@.len() ==> (#[trigger] maquinas@[k]).tarefas@.len() == old(
                    maquinas,
                )@[k].tarefas@.len(),
            carga_total(maquinas@) == carga_total(old(maquinas)@),
            contagem_total(maquinas@) == contagem_total(old(maquinas)@),
            tarefas_em(maquinas@) == tarefas_em(old(maquinas)@),
            carga_max(maquinas@) <= carga_max(old(maquinas)@),
            busca_alcanca(old(maquinas)@, maquinas@, moves as nat),
            moves + maquinas@[0].n_ativas() == old(maquinas)@[0].n_ativas(),
            0 <= maquinas@[0].n_ativas(),
            log.enabled == old(log).enabled,
            old(log).events@.is_prefix_of(log.events@),
            !log.enabled ==> log.events@ == old(log).events@,
            log.enabled ==> log.events@.len() >= old(log).events@.len(),
            log.enabled && log.events@.len() > old(log).events@.len() ==> eh_snapshot(
                log.events@.last(),
            ) && instantanea_de(maquinas_do_snapshot(log.events@.last()), maquinas@),
            log.enabled ==> conta_tipo(log.events@, TipoEvento::Movida) == conta_tipo(
                old(log).events@,
                TipoEvento::Movida,
            ) + moves,
            sufixo_movidas_validas(log.events@, old(log).events@.len() as int),
            forall|k: TipoEvento|
                k != TipoEvento::Comparacao && k != TipoEvento::Avaliacao && k
                    != TipoEvento::Movida && k != TipoEvento::IteracaoCompleta && k
                    != TipoEvento::Instantaneo ==> #[trigger] conta_tipo(log.events@, k)
                    == conta_tipo(old(log).events@, k),
            !emitir_iteracao ==> conta_tipo(log.events@, TipoEvento::IteracaoCompleta)
                == conta_tipo(old(log).events@, TipoEvento::IteracaoCompleta),
        ensures
            log.enabled ==> log.events@.len() > old(log).events@.len(),
            busca_encerrada(maquinas@),
        decreases maquinas@[0].n_ativas(),
    {
        proof {
            lemma_wf_cargas_ok(maquinas@);
        }
        let ms = ms_total(&maquinas);
        let pos_min = pos_ms_min(&maquinas);
        if log.enabled {
            let min_ms = maquinas[pos_min].ms_maquina();
            log.events.push(
                AnimationEvent::ComparingMachines {
                    min_machine_id: pos_min,
                    min_makespan: min_ms,
                    total_makespan: ms,
                },
            );
            let estados = MachineState::from_maquinas(&maquinas);
            log.events.push(AnimationEvent::MachineSnapshot { machines: estados });
        }
        if pos_min == 0 {
            proof {
                lemma_encerrada(maquinas@, 0, 0);
            }
            break;
        }
        proof {
            lemma_soma_nonneg(maquinas@[pos_min as int].ativas());
            if maquinas@[0].pos < 0 {
                assert(maquinas@[0].ativas() =~= Seq::<u32>::empty());
            }
        }
        let ms_n = maquinas[pos_min].ms_maquina();
        let pos_max_value = search_max_value(&maquinas[0], 0);
        proof {
            if pos_max_value >= 0 {
                assert(maquinas@[0].ativas()[pos_max_value as int]
                    == maquinas@[0].tarefas@[pos_max_value as int]);
                lemma_soma_elem(maquinas@[0].ativas(), pos_max_value as int);
                lemma_carga_par_le_total(maquinas@, 0, pos_min as int);
            }
        }
        if pos_max_value == -1 || ms_n + maquinas[0].tarefas[pos_max_value as usize] > ms {
            if log.enabled {
                if pos_max_value != -1 {
                    let task_value = maquinas[0].tarefas[pos_max_value as usize];
                    log.events.push(
                        AnimationEvent::EvaluatingMove {
                            from_machine: 0,
                            to_machine: pos_min,
                            task_value,
                            task_index: pos_max_value as usize,
                            new_makespan_would_be: ms_n + task_value,
                            current_makespan: ms,
                            will_move: false,
                        },
                    );
                    let estados = MachineState::from_maquinas(&maquinas);
                    log.events.push(AnimationEvent::MachineSnapshot { machines: estados });
                }
            }
            proof {
                if pos_max_value == -1 {
                    lemma_encerrada(maquinas@, pos_min as int, 0);
                } else {
                    lemma_encerrada(maquinas@, pos_min as int, pos_max_value as int);
                }
            }
            break;
        }
        let tarefa = maquinas[0].tarefas[pos_max_value as usize];
        if log.enabled {
            log.events.push(
                AnimationEvent::EvaluatingMove {
                    from_machine: 0,
                    to_machine: pos_min,
                    task_value: tarefa,
                    task_index: pos_max_value as usize,
                    new_makespan_would_be: ms_n + tarefa,
                    current_makespan: ms,
                    will_move: true,
                },
            );
            let estados = MachineState::from_maquinas(&maquinas);
            log.events.push(AnimationEvent::MachineSnapshot { machines: estados });
        }
        let old_makespan = ms;
        let ghost antes = maquinas@;
        proof {
            lemma_contagem_par_le_total(maquinas@, 0, pos_min as int);
        }
        let _ = mover_tarefa(maquinas, 0, pos_min, pos_max_value as usize);
        proof {
            assert forall|k: int|
                0 <= k < maquinas@.len() implies (#[trigger] maquinas@[k]).carga() <= ms by {
                if k == 0 {
                    lemma_carga_max_ge(antes, 0);
                } else if k == pos_min {
                } else {
                    lemma_carga_max_ge(antes, k);
                }
            }
            lemma_carga_max_le(maquinas@, ms as int);
            lemma_wf_cargas_ok(maquinas@);
            assert(movimento(antes, maquinas@, 0, pos_min as int, pos_max_value as int)) by {
                assert forall|k: int|
                    0 <= k < antes.len() && k != 0 && k != pos_min implies (
                #[trigger] maquinas@[k]).ativas() == antes[k].ativas() && maquinas@[k].n_ativas()
                    == antes[k].n_ativas() by {
                    assert(maquinas@[k] == antes[k]);
                }
            }
            assert(passo_busca(antes, maquinas@));
            lemma_busca_alcanca_estende(old(maquinas)@, antes, maquinas@, moves as nat);
        }
        moves = moves + 1;
        let new_makespan = ms_total(&maquinas);
        if log.enabled {
            log.events.push(
                AnimationEvent::TaskMoved {
                    from_machine: 0,
                    to_machine: pos_min,
                    task_value: tarefa,
                    old_makespan,
                    new_makespan,
                },
            );
            let estados = MachineState::from_maquinas(&maquinas);
            log.events.push(AnimationEvent::MachineSnapshot { machines: estados });
            if emitir_iteracao {
                log.events.push(
                    AnimationEvent::IterationComplete {
                        iteration: moves as u32,
                        total_makespan: new_makespan,
                    },
                );
                let estados2 = MachineState::from_maquinas(&maquinas);
                log.events.push(AnimationEvent::MachineSnapshot { machines: estados2 });
            }
        }
    }
    moves
}

// ---------------------------------------------------------------------------
// Best-improvement algorithm
// ---------------------------------------------------------------------------

/// Builds the initial solution: `tam_m` machines with capacity `tam_n`, and
/// `tam_n` random tasks (weights 1..=100) all assigned to machine 0.
pub(crate) fn gerar_solucao(tam_m: usize, tam_n: usize, log: &mut EventLog) -> (r: Vec<Maquina>)
    requires
        1 <= tam_m,
        1 <= tam_n,
        100 * tam_n <= u32::MAX,
    ensures
        solucao_wf(r@),
        r@.len() == tam_m,
        r@[0].tarefas@.len() == tam_n,
        contagem_total(r@) == tam_n,
        pesos_validos(r@[0].ativas()),
        tam_n <= carga_total(r@) <= 100 * tam_n,
        carga_max(r@) == carga_total(r@),
        log_estendido(*old(log), *final(log)),
        old(log).enabled ==> conta_tipo(final(log).events@, TipoEvento::Gerada) == conta_tipo(
            old(log).events@,
            TipoEvento::Gerada,
        ) + tam_n,
        old(log).enabled ==> instantanea_de(
            maquinas_do_snapshot(final(log).events@.last()),
            r@,
        ),
        sufixo_movidas_validas(final(log).events@, old(log).events@.len() as int),
        forall|k: TipoEvento|
            k != TipoEvento::Gerada && k != TipoEvento::Instantaneo
                ==> #[trigger] conta_tipo(final(log).events@, k) == conta_tipo(
                old(log).events@,
                k,
            ),
{
    proof {
        lemma_prefixo_refl(old(log).events@);
    }
    let mut tarefas: Vec<u32> = Vec::new();
    let mut i: usize = 0;
    while i < tam_n
        invariant
            i <= tam_n,
            tarefas@.len() == i,
            pesos_validos(tarefas@),
            log.enabled == old(log).enabled,
            old(log).events@.is_prefix_of(log.events@),
            !log.enabled ==> log.events@ == old(log).events@,
            log.enabled ==> conta_tipo(log.events@, TipoEvento::Gerada) == conta_tipo(
                old(log).events@,
                TipoEvento::Gerada,
            ) + i,
            sufixo_movidas_validas(log.events@, old(log).events@.len() as int),
            forall|k: TipoEvento|
                k != TipoEvento::Gerada && k != TipoEvento::Instantaneo
                    ==> #[trigger] conta_tipo(log.events@, k) == conta_tipo(old(log).events@, k),
        decreases tam_n - i,
    {
        let value = valor_tarefa_aleatorio();
        tarefas.push(value);
        if log.enabled {
            log.events.push(
                AnimationEvent::TaskGenerated { machine_id: 0, task_value: value, task_index: i },
            );
        }
        i = i + 1;
    }
    let ghost pesos = tarefas@;
    let m0 = Maquina { tarefas, pos: (tam_n - 1) as i32 };
    proof {
        assert(m0.ativas() =~= pesos);
        lemma_soma_pesos_validos(pesos);
    }
    let mut maquinas: Vec<Maquina> = Vec::new();
    let ghost vazio = maquinas@;
    maquinas.push(m0);
    proof {
        lemma_carga_total_push(vazio, m0);
        lemma_contagem_push(vazio, m0);
    }
    let mut k: usize = 1;
    while k < tam_m
        invariant
            1 <= k <= tam_m,
            1 <= tam_n <= i32::MAX,
            maquinas@.len() == k,
            maquinas@[0] == m0,
            m0.carga() == soma(pesos),
            forall|j: int|
                0 <= j < k ==> (#[trigger] maquinas@[j]).wf() && maquinas@[j].tarefas@.len()
                    == tam_n,
            carga_total(maquinas@) == m0.carga(),
            contagem_total(maquinas@) == tam_n,
        decreases tam_m - k,
    {
        let ghost antes = maquinas@;
        let nova = Maquina::new(tam_n);
        maquinas.push(nova);
        proof {
            lemma_carga_total_push(antes, nova);
            lemma_contagem_push(antes, nova);
        }
        k = k + 1;
    }
    proof {
        assert forall|j: int|
            0 <= j < maquinas@.len() implies (#[trigger] maquinas@[j]).carga() <= carga_total(
            maquinas@,
        ) by {
            lemma_carga_le_total(maquinas@, j);
        }
        lemma_carga_max_le(maquinas@, carga_total(maquinas@));
        lemma_carga_max_ge(maquinas@, 0);
    }
    if log.enabled {
        proof {
            lemma_wf_cargas_ok(maquinas@);
        }
        let estados = MachineState::from_maquinas(&maquinas);
        log.events.push(AnimationEvent::MachineSnapshot { machines: estados });
    }
    maquinas
}

/// Best-improvement local search ("melhor melhora"): builds a random initial
/// solution on machine 0, then runs the engine to local optimality.  The run
/// record counts exactly the accepted moves, and with an enabled log the
/// trace grows by exactly that many task-moved events, each leaving the
/// makespan no higher.
pub fn melhor_melhora_with_events(tam_m: usize, tam_n: usize, log: &mut EventLog) -> (r: Result<
    RunResult,
    ConfigErro,
>)
    requires
        100 * tam_n <= u32::MAX,
    ensures
        tam_m == 0 ==> r == Err::<RunResult, ConfigErro>(ConfigErro::SemMaquinas),
        1 <= tam_m && tam_n == 0 ==> r == Err::<RunResult, ConfigErro>(ConfigErro::SemTarefas),
        1 <= tam_m && 1 <= tam_n ==> r is Ok,
        r matches Ok(res) ==> res.n_tarefas == tam_n && res.n_maquinas == tam_m && res.iteracoes
            <= tam_n && res.makespan_final <= res.makespan_inicial && tam_n <= res.makespan_inicial
            <= 100 * tam_n && 1 <= res.makespan_final && res.makespan_final * tam_m
            >= res.makespan_inicial && res.algoritmo@ == "busca-local-monotona-melhorada"@,
        r is Ok ==> log_estendido(*old(log), *final(log)),
        r matches Ok(res) ==> (old(log).enabled ==> conta_tipo(
            final(log).events@,
            TipoEvento::Movida,
        ) == conta_tipo(old(log).events@, TipoEvento::Movida) + res.iteracoes),
        r is Ok ==> sufixo_movidas_validas(final(log).events@, old(log).events@.len() as int),
        r is Err ==> *final(log) == *old(log),
{
    if tam_m == 0 {
        return Err(ConfigErro::SemMaquinas);
    }
    if tam_n == 0 {
        return Err(ConfigErro::SemTarefas);
    }
    let mut maquinas = gerar_solucao(tam_m, tam_n, log);
    proof {
        lemma_wf_cargas_ok(maquinas@);
    }
    let ms_s = ms_total(&maquinas);
    let ghost total0 = carga_total(maquinas@);
    let ghost log_inicial = *log;
    let moves = motor_busca(&mut maquinas, log, true);
    proof {
        lemma_prefixo_trans(old(log).events@, log_inicial.events@, log.events@);
        crate::animation::lemma_sufixo_movidas_trans(
            log_inicial.events@,
            log.events@,
            old(log).events@.len() as int,
        );
        lemma_wf_cargas_ok(maquinas@);
    }
    let ms_f = ms_total(&maquinas);
    proof {
        lemma_carga_total_pos(maquinas@);
        let i = choose|i: int| 0 <= i < maquinas@.len() && (#[trigger] maquinas@[i]).carga() > 0;
        lemma_carga_max_ge(maquinas@, i);
        lemma_total_le_max(maquinas@);
    }
    if log.enabled {
        log.events.push(
            AnimationEvent::AlgorithmComplete { final_makespan: ms_f, total_moves: moves as u32 },
        );
        let estados = MachineState::from_maquinas(&maquinas);
        log.events.push(AnimationEvent::MachineSnapshot { machines: estados });
    }
    Ok(
        RunResult {
            n_tarefas: tam_n,
            n_maquinas: tam_m,
            iteracoes: moves,
            makespan_inicial: ms_s,
            makespan_final: ms_f,
            algoritmo: String::from_str("busca-local-monotona-melhorada"),
        },
    )
}

/// Best-improvement run without instrumentation.
pub fn melhor_melhora(tam_m: usize, tam_n: usize) -> (r: Result<RunResult, ConfigErro>)
    requires
        100 * tam_n <= u32::MAX,
    ensures
        tam_m == 0 ==> r == Err::<RunResult, ConfigErro>(ConfigErro::SemMaquinas),
        1 <= tam_m && tam_n == 0 ==> r == Err::<RunResult, ConfigErro>(ConfigErro::SemTarefas),
        1 <= tam_m && 1 <= tam_n ==> r is Ok,
        r matches Ok(res) ==> res.n_tarefas == tam_n && res.n_maquinas == tam_m && res.iteracoes
            <= tam_n && res.makespan_final <= res.makespan_inicial && tam_n <= res.makespan_inicial
            <= 100 * tam_n && 1 <= res.makespan_final && res.makespan_final * tam_m
            >= res.makespan_inicial && res.algoritmo@ == "busca-local-monotona-melhorada"@,
{
    let mut log = EventLog::new(false);
    melhor_melhora_with_events(tam_m, tam_n, &mut log)
}

} // verus!
