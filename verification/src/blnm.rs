use vstd::prelude::*;
use vstd::string::StringExecFns;
use crate::animation::{AnimationEvent, EventLog, MachineState, TipoEvento};
use crate::animation::{
    conta_tipo, contagem_estagnacao, eh_snapshot, instantanea_de, lemma_perturbacoes_snapshot_par,
    lemma_prefixo_refl, lemma_prefixo_trans, log_estendido, maquinas_do_snapshot,
    perturbacoes_com_snapshot, sufixo_movidas_validas, tipo,
};
use crate::blm::{Maquina, gerar_solucao, motor_busca, mover_tarefa, ms_total};
use crate::blm::{
    busca_alcanca, busca_encerrada, carga_max, carga_total, contagem_total, movimento,
    solucao_wf, tarefas_em,
};
use crate::blm::{
    lemma_carga_max_ge, lemma_carga_total_pos, lemma_contagem_le_total,
    lemma_contagem_par_le_total, lemma_contagem_pos, lemma_total_le_max, lemma_wf_cargas_ok,
};
use crate::rng::indice_aleatorio;
use crate::utils::{ConfigErro, RunResult};

verus! {

broadcast use
    crate::animation::lemma_prefixo_push,
    crate::animation::lemma_conta_tipo_push;

// ---------------------------------------------------------------------------
// Deep copies
// ---------------------------------------------------------------------------

/// Two solutions that hold the same buffers and occupation marks.
pub open spec fn mesma_solucao(a: Seq<Maquina>, b: Seq<Maquina>) -> bool {
    &&& a.len() == b.len()
    &&& forall|i: int|
        0 <= i < a.len() ==> (#[trigger] b[i]).tarefas@ == a[i].tarefas@ && b[i].pos == a[i].pos
}

/// Equal solutions agree on every derived measure.
pub proof fn lemma_mesma_solucao(a: Seq<Maquina>, b: Seq<Maquina>)
    requires
        mesma_solucao(a, b),
    ensures
        carga_total(a) == carga_total(b),
        carga_max(a) == carga_max(b),
        contagem_total(a) == contagem_total(b),
        solucao_wf(a) <==> solucao_wf(b),
    decreases a.len(),
{
    if a.len() > 0 {
        assert(mesma_solucao(a.drop_last(), b.drop_last()));
        lemma_mesma_solucao(a.drop_last(), b.drop_last());
        assert(a.last().tarefas@ == b.last().tarefas@ && a.last().pos == b.last().pos);
        assert(a.last().carga() == b.last().carga());
    }
    assert forall|i: int| 0 <= i < a.len() implies ((#[trigger] a[i]).wf() <==> b[i].wf())
        && (a[i].tarefas@.len() == b[i].tarefas@.len()) by {}
}

/// An independent full copy of a solution: mutating the copy never touches
/// the original.
pub fn clonar_solucao(maquinas: &Vec<Maquina>) -> (r: Vec<Maquina>)
    ensures
        mesma_solucao(maquinas@, r@),
{
    let mut r: Vec<Maquina> = Vec::new();
    let mut i: usize = 0;
    while i < maquinas.len()
        invariant
            i <= maquinas@.len(),
            r@.len() == i,
            forall|j: int|
                0 <= j < i ==> (#[trigger] r@[j]).tarefas@ == maquinas@[j].tarefas@ && r@[j].pos
                    == maquinas@[j].pos,
        decreases maquinas@.len() - i,
    {
        let mut tarefas: Vec<u32> = Vec::new();
        let fonte = &maquinas[i];
        let mut j: usize = 0;
        while j < fonte.tarefas.len()
            invariant
                j <= fonte.tarefas@.len(),
                tarefas@ == fonte.tarefas@.subrange(0, j as int),
            decreases fonte.tarefas@.len() - j,
        {
            tarefas.push(fonte.tarefas[j]);
            proof {
                assert(tarefas@ =~= fonte.tarefas@.subrange(0, j + 1));
            }
            j = j + 1;
        }
        proof {
            assert(tarefas@ =~= fonte.tarefas@);
        }
        r.push(Maquina { tarefas, pos: fonte.pos });
        i = i + 1;
    }
    r
}

// ---------------------------------------------------------------------------
// Perturbation
// ---------------------------------------------------------------------------

/// One perturbation relocation: some held task moves to some machine, a
/// different one whenever the solution has more than one machine.
pub open spec fn passo_perturbacao(antes: Seq<Maquina>, depois: Seq<Maquina>) -> bool {
    exists|origem: int, destino: int, p: int|
        #![trigger movimento(antes, depois, origem, destino, p)]
        (antes.len() > 1 ==> origem != destino) && movimento(antes, depois, origem, destino, p)
}

/// `depois` is reached from `antes` by exactly `passos` perturbation moves.
pub open spec fn perturbacao_alcanca(
    antes: Seq<Maquina>,
    depois: Seq<Maquina>,
    passos: nat,
) -> bool
    decreases passos,
{
    if passos == 0 {
        antes == depois
    } else {
        exists|meio: Seq<Maquina>|
            #[trigger] passo_perturbacao(antes, meio) && perturbacao_alcanca(
                meio,
                depois,
                (passos - 1) as nat,
            )
    }
}

/// A chain of perturbation moves grows by one at its end.
proof fn lemma_perturbacao_alcanca_estende(
    a: Seq<Maquina>,
    b: Seq<Maquina>,
    c: Seq<Maquina>,
    k: nat,
)
    requires
        perturbacao_alcanca(a, b, k),
        passo_perturbacao(b, c),
    ensures
        perturbacao_alcanca(a, c, (k + 1) as nat),
    decreases k,
{
    if k == 0 {
        assert(passo_perturbacao(a, c) && perturbacao_alcanca(c, c, 0));
    } else {
        let meio = choose|meio: Seq<Maquina>|
            #[trigger] passo_perturbacao(a, meio) && perturbacao_alcanca(meio, b, (k - 1) as nat);
        lemma_perturbacao_alcanca_estende(meio, b, c, (k - 1) as nat);
        assert(passo_perturbacao(a, meio) && perturbacao_alcanca(meio, c, k));
    }
}

/// Performs `num_perturb` random task relocations: each picks a random
/// machine that holds a task, a random task on it, and a random destination
/// (a different machine whenever more than one exists), then moves the task.
/// When the solution holds any task, exactly `num_perturb` relocations
/// happen (`perturbacao_alcanca`), each recorded as a perturbation-move
/// event followed by a snapshot; total load, task count and the task
/// multiset are conserved by every relocation.
#[verifier::rlimit(80)]
pub fn perturbar(maquinas: &mut Vec<Maquina>, num_perturb: usize, log: &mut EventLog)
    requires
        solucao_wf(old(maquinas)@),
    ensures
        solucao_wf(final(maquinas)@),
        final(maquinas)@.len() == old(maquinas)@.len(),
        forall|k: int|
            0 <= k < old(maquinas)@.len() ==> (#[trigger] final(maquinas)@[k]).tarefas@.len()
                == old(maquinas)@[k].tarefas@.len(),
        carga_total(final(maquinas)@) == carga_total(old(maquinas)@),
        contagem_total(final(maquinas)@) == contagem_total(old(maquinas)@),
        tarefas_em(final(maquinas)@) == tarefas_em(old(maquinas)@),
        1 <= contagem_total(old(maquinas)@) ==> perturbacao_alcanca(
            old(maquinas)@,
            final(maquinas)@,
            num_perturb as nat,
        ),
        contagem_total(old(maquinas)@) == 0 ==> final(maquinas)@ == old(maquinas)@
            && final(log).events@ == old(log).events@,
        final(log).enabled == old(log).enabled,
        old(log).events@.is_prefix_of(final(log).events@),
        !old(log).enabled ==> final(log).events@ == old(log).events@,
        old(log).enabled ==> final(log).events@ == old(log).events@
            || (final(log).events@.len() > old(log).events@.len()
                && eh_snapshot(final(log).events@.last())),
        old(log).enabled && 1 <= num_perturb && 1 <= contagem_total(old(maquinas)@)
            ==> final(log).events@.len() > old(log).events@.len() && eh_snapshot(
            final(log).events@.last(),
        ) && instantanea_de(maquinas_do_snapshot(final(log).events@.last()), final(maquinas)@),
        old(log).enabled && 1 <= contagem_total(old(maquinas)@) ==> conta_tipo(
            final(log).events@,
            TipoEvento::MovPerturbacao,
        ) == conta_tipo(old(log).events@, TipoEvento::MovPerturbacao) + num_perturb,
        perturbacoes_com_snapshot(final(log).events@, old(log).events@.len() as int),
        forall|k: TipoEvento|
            k != TipoEvento::MovPerturbacao && k != TipoEvento::Instantaneo
                ==> #[trigger] conta_tipo(final(log).events@, k) == conta_tipo(
                old(log).events@,
                k,
            ),
{
    proof {
        lemma_prefixo_refl(old(log).events@);
    }
    let mut rodada: usize = 0;
    while rodada < num_perturb
        invariant
            rodada <= num_perturb,
            solucao_wf(maquinas@),
            maquinas@.len() == old(maquinas)@.len(),
            forall|k: int|
                0 <= k < old(maquinas)@.len() ==> (#[trigger] maquinas@[k]).tarefas@.len() == old(maquinas)@[k].tarefas@.len(),
            carga_total(maquinas@) == carga_total(old(maquinas)@),
            contagem_total(maquinas@) == contagem_total(old(maquinas)@),
            tarefas_em(maquinas@) == tarefas_em(old(maquinas)@),
            perturbacao_alcanca(old(maquinas)@, maquinas@, rodada as nat),
            contagem_total(old(maquinas)@) == 0 ==> maquinas@ == old(maquinas)@ && log.events@
                == old(log).events@,
            log.enabled == old(log).enabled,
            old(log).events@.is_prefix_of(log.events@),
            !log.enabled ==> log.events@ == old(log).events@,
            log.enabled ==> log.events@ == old(log).events@ || (log.events@.len() > old(log).events@.len() && eh_snapshot(log.events@.last())),
            log.enabled && 1 <= rodada ==> log.events@.len() > old(log).events@.len()
                && eh_snapshot(log.events@.last()) && instantanea_de(
                maquinas_do_snapshot(log.events@.last()),
                maquinas@,
            ),
            log.enabled ==> conta_tipo(log.events@, TipoEvento::MovPerturbacao) == conta_tipo(
                old(log).events@,
                TipoEvento::MovPerturbacao,
            ) + rodada,
            perturbacoes_com_snapshot(log.events@, old(log).events@.len() as int),
            forall|k: TipoEvento|
                k != TipoEvento::MovPerturbacao && k != TipoEvento::Instantaneo
                    ==> #[trigger] conta_tipo(log.events@, k) == conta_tipo(old(log).events@, k),
        ensures
            1 <= contagem_total(old(maquinas)@) ==> rodada == num_perturb,
        decreases num_perturb - rodada,
    {
        let mut com_tarefas: Vec<usize> = Vec::new();
        let mut j: usize = 0;
        while j < maquinas.len()
            invariant
                j <= maquinas@.len(),
                solucao_wf(maquinas@),
                forall|k: int|
                    0 <= k < com_tarefas@.len() ==> (#[trigger] com_tarefas@[k]) < maquinas@.len()
                        && maquinas@[com_tarefas@[k] as int].pos >= 0,
                (exists|k: int| 0 <= k < j && (#[trigger] maquinas@[k]).pos >= 0)
                    ==> com_tarefas@.len() >= 1,
            decreases maquinas@.len() - j,
        {
            if maquinas[j].pos >= 0 {
                com_tarefas.push(j);
            }
            j = j + 1;
        }
        if com_tarefas.len() == 0 {
            proof {
                if contagem_total(old(maquinas)@) >= 1 {
                    lemma_contagem_pos(maquinas@);
                }
            }
            break;
        }
        let idx_origem = com_tarefas[indice_aleatorio(com_tarefas.len())];
        proof {
            lemma_contagem_le_total(maquinas@, idx_origem as int);
        }
        let n_origem: usize = (maquinas[idx_origem].pos as usize) + 1;
        let pos_tarefa = indice_aleatorio(n_origem);
        let idx_destino: usize;
        if maquinas.len() > 1 {
            let sorteio = indice_aleatorio(maquinas.len() - 1);
            idx_destino = if sorteio < idx_origem {
                sorteio
            } else {
                sorteio + 1
            };
        } else {
            idx_destino = idx_origem;
        }
        proof {
            if idx_origem != idx_destino {
                lemma_contagem_par_le_total(maquinas@, idx_origem as int, idx_destino as int);
            }
        }
        let ghost antes = maquinas@;
        let tarefa = mover_tarefa(maquinas, idx_origem, idx_destino, pos_tarefa);
        proof {
            assert(movimento(antes, maquinas@, idx_origem as int, idx_destino as int,
                pos_tarefa as int)) by {
                assert forall|k: int|
                    0 <= k < antes.len() && k != idx_origem && k != idx_destino implies (
                #[trigger] maquinas@[k]).ativas() == antes[k].ativas() && maquinas@[k].n_ativas()
                    == antes[k].n_ativas() by {
                    assert(maquinas@[k] == antes[k]);
                }
            }
            assert(passo_perturbacao(antes, maquinas@));
            lemma_perturbacao_alcanca_estende(old(maquinas)@, antes, maquinas@, rodada as nat);
        }
        if log.enabled {
            let ghost rastro = log.events@;
            log.events.push(
                AnimationEvent::PerturbationMove {
                    from_machine: idx_origem,
                    to_machine: idx_destino,
                    task_value: tarefa,
                },
            );
            let ghost rastro_mv = log.events@;
            proof {
                lemma_wf_cargas_ok(maquinas@);
            }
            let estados = MachineState::from_maquinas(&maquinas);
            log.events.push(AnimationEvent::MachineSnapshot { machines: estados });
            proof {
                lemma_perturbacoes_snapshot_par(
                    rastro,
                    old(log).events@.len() as int,
                    rastro_mv.last(),
                    log.events@.last(),
                );
                assert(log.events@ == rastro.push(rastro_mv.last()).push(log.events@.last()));
            }
        }
        rodada = rodada + 1;
    }
}

// ---------------------------------------------------------------------------
// Local search on an existing solution
// ---------------------------------------------------------------------------

/// Runs the best-improvement transfer loop to local optimality: while the
/// least-loaded machine is not the source machine 0 and moving the heaviest
/// task of machine 0 there cannot raise the makespan, move it.  The final
/// state is reached by a chain of engine steps (`busca_alcanca`), each the
/// deterministic first-min/first-max move; the makespan never increases, and
/// total load, task count and the task multiset are conserved.
pub fn aplicar_busca_local(maquinas: &mut Vec<Maquina>, log: &mut EventLog)
    requires
        solucao_wf(old(maquinas)@),
    ensures
        solucao_wf(final(maquinas)@),
        final(maquinas)@.len() == old(maquinas)@.len(),
        forall|k: int|
            0 <= k < old(maquinas)@.len() ==> (#[trigger] final(maquinas)@[k]).tarefas@.len()
                == old(maquinas)@[k].tarefas@.len(),
        carga_total(final(maquinas)@) == carga_total(old(maquinas)@),
        contagem_total(final(maquinas)@) == contagem_total(old(maquinas)@),
        tarefas_em(final(maquinas)@) == tarefas_em(old(maquinas)@),
        carga_max(final(maquinas)@) <= carga_max(old(maquinas)@),
        busca_encerrada(final(maquinas)@),
        exists|passos: nat|
            passos <= old(maquinas)@[0].n_ativas() && #[trigger] busca_alcanca(
                old(maquinas)@,
                final(maquinas)@,
                passos,
            ) && (final(log).enabled ==> conta_tipo(final(log).events@, TipoEvento::Movida)
                == conta_tipo(old(log).events@, TipoEvento::Movida) + passos),
        final(log).enabled == old(log).enabled,
        old(log).events@.is_prefix_of(final(log).events@),
        !old(log).enabled ==> final(log).events@ == old(log).events@,
        old(log).enabled ==> final(log).events@.len() > old(log).events@.len() && eh_snapshot(
            final(log).events@.last(),
        ) && instantanea_de(maquinas_do_snapshot(final(log).events@.last()), final(maquinas)@),
        sufixo_movidas_validas(final(log).events@, old(log).events@.len() as int),
        forall|k: TipoEvento|
            k != TipoEvento::Comparacao && k != TipoEvento::Avaliacao && k != TipoEvento::Movida
                && k != TipoEvento::Instantaneo ==> #[trigger] conta_tipo(final(log).events@, k)
                == conta_tipo(old(log).events@, k),
{
    let moves = motor_busca(maquinas, log, false);
    proof {
        assert(busca_alcanca(old(maquinas)@, maquinas@, moves as nat) && (log.enabled
            ==> conta_tipo(log.events@, TipoEvento::Movida) == conta_tipo(
            old(log).events@,
            TipoEvento::Movida,
        ) + moves as nat));
    }
}

// ---------------------------------------------------------------------------
// Iterated local search
// ---------------------------------------------------------------------------

/// The acceptance rule of the iterated local search, applied once per outer
/// iteration: a strictly better candidate replaces the incumbent makespan and
/// resets the stagnation counter; anything else keeps the incumbent and
/// increments the counter by exactly one.  The incumbent never worsens.
pub fn ils_aceitar(melhor_ms: u32, candidato_ms: u32, sem_melhora: u32) -> (r: (u32, u32))
    requires
        sem_melhora < u32::MAX,
    ensures
        r.0 <= melhor_ms,
        candidato_ms < melhor_ms ==> r.0 == candidato_ms && r.1 == 0,
        candidato_ms >= melhor_ms ==> r.0 == melhor_ms && r.1 == sem_melhora + 1,
{
    if candidato_ms < melhor_ms {
        (candidato_ms, 0)
    } else {
        (melhor_ms, sem_melhora + 1)
    }
}

/// Iterated local search ("busca local iterada"): builds a random initial
/// solution, refines it once, then repeatedly clones the incumbent, perturbs
/// the clone with `num_perturb` random relocations, re-optimizes it, and
/// accepts it only on strict improvement.  Stops after
/// `max_iteracoes_sem_melhora` consecutive iterations without improvement;
/// with a limit of 0 the perturbation loop never runs.
#[verifier::rlimit(100)]
pub fn busca_local_iterada_with_events(
    tam_m: usize,
    tam_n: usize,
    num_perturb: usize,
    max_iteracoes_sem_melhora: u32,
    log: &mut EventLog,
) -> (r: Result<RunResult, ConfigErro>)
    requires
        100 * tam_n <= u32::MAX,
        100 * tam_n * (max_iteracoes_sem_melhora + 1) + max_iteracoes_sem_melhora < usize::MAX,
    ensures
        tam_m == 0 ==> r == Err::<RunResult, ConfigErro>(ConfigErro::SemMaquinas),
        1 <= tam_m && tam_n == 0 ==> r == Err::<RunResult, ConfigErro>(ConfigErro::SemTarefas),
        1 <= tam_m && 1 <= tam_n ==> r is Ok,
        r matches Ok(res) ==> res.n_tarefas == tam_n && res.n_maquinas == tam_m
            && res.makespan_final <= res.makespan_inicial && tam_n <= res.makespan_inicial <= 100
            * tam_n && 1 <= res.makespan_final && res.makespan_final * tam_m
            >= res.makespan_inicial && (max_iteracoes_sem_melhora == 0 ==> res.iteracoes == 0)
            && res.iteracoes >= max_iteracoes_sem_melhora && res.iteracoes <= 100 * tam_n * (
        max_iteracoes_sem_melhora + 1) + max_iteracoes_sem_melhora && res.algoritmo@
            == "busca-local-iterada"@,
        r is Ok ==> log_estendido(*old(log), *final(log)),
        r matches Ok(res) ==> (old(log).enabled ==> conta_tipo(
            final(log).events@,
            TipoEvento::InicioPerturbacao,
        ) == conta_tipo(old(log).events@, TipoEvento::InicioPerturbacao) + res.iteracoes),
        r matches Ok(res) ==> (old(log).enabled ==> conta_tipo(
            final(log).events@,
            TipoEvento::Melhora,
        ) + conta_tipo(final(log).events@, TipoEvento::Estagnacao) == conta_tipo(
            old(log).events@,
            TipoEvento::Melhora,
        ) + conta_tipo(old(log).events@, TipoEvento::Estagnacao) + res.iteracoes),
        r is Ok && max_iteracoes_sem_melhora == 0 ==> conta_tipo(
            final(log).events@,
            TipoEvento::MovPerturbacao,
        ) == conta_tipo(old(log).events@, TipoEvento::MovPerturbacao),
        old(log).enabled && r is Ok && 1 <= max_iteracoes_sem_melhora ==> exists|j: int|
            old(log).events@.len() <= j < final(log).events@.len() && tipo(
                #[trigger] final(log).events@[j],
            ) == TipoEvento::Estagnacao && contagem_estagnacao(final(log).events@[j])
                == max_iteracoes_sem_melhora,
        r is Err ==> *final(log) == *old(log),
{
    if tam_m == 0 {
        return Err(ConfigErro::SemMaquinas);
    }
    if tam_n == 0 {
        return Err(ConfigErro::SemTarefas);
    }
    let maquinas = gerar_solucao(tam_m, tam_n, log);
    proof {
        lemma_wf_cargas_ok(maquinas@);
    }
    let ms_s = ms_total(&maquinas);
    let ghost total0 = carga_total(maquinas@);
    let mut melhor_solucao = clonar_solucao(&maquinas);
    proof {
        lemma_mesma_solucao(maquinas@, melhor_solucao@);
        lemma_wf_cargas_ok(melhor_solucao@);
    }
    if log.enabled {
        log.events.push(AnimationEvent::LocalSearchStart { iteration: 0 });
        let estados = MachineState::from_maquinas(&melhor_solucao);
        log.events.push(AnimationEvent::MachineSnapshot { machines: estados });
    }
    let ghost log_antes_busca = *log;
    aplicar_busca_local(&mut melhor_solucao, log);
    proof {
        lemma_prefixo_trans(old(log).events@, log_antes_busca.events@, log.events@);
        lemma_wf_cargas_ok(melhor_solucao@);
    }
    let mut melhor_makespan = ms_total(&melhor_solucao);
    let ghost melhor0 = melhor_makespan;
    let mut iteracoes_sem_melhora: u32 = 0;
    let mut iteracoes_totais: usize = 0;
    let ghost limite = max_iteracoes_sem_melhora as int;
    while iteracoes_sem_melhora < max_iteracoes_sem_melhora
        invariant
            solucao_wf(melhor_solucao@),
            melhor_solucao@.len() == tam_m,
            1 <= tam_n,
            100 * tam_n <= u32::MAX,
            100 * tam_n * (limite + 1) + limite < usize::MAX,
            limite == max_iteracoes_sem_melhora,
            carga_total(melhor_solucao@) == total0,
            tam_n <= total0,
            melhor_makespan == carga_max(melhor_solucao@),
            melhor_makespan <= melhor0,
            melhor0 <= ms_s <= 100 * tam_n,
            iteracoes_sem_melhora <= max_iteracoes_sem_melhora,
            iteracoes_totais >= iteracoes_sem_melhora,
            iteracoes_totais <= (melhor0 - melhor_makespan) * (limite + 1)
                + iteracoes_sem_melhora,
            max_iteracoes_sem_melhora == 0 ==> iteracoes_totais == 0,
            ms_s == total0,
            log.enabled ==> conta_tipo(log.events@, TipoEvento::InicioPerturbacao) == conta_tipo(
                old(log).events@,
                TipoEvento::InicioPerturbacao,
            ) + iteracoes_totais,
            log.enabled ==> conta_tipo(log.events@, TipoEvento::Melhora) + conta_tipo(
                log.events@,
                TipoEvento::Estagnacao,
            ) == conta_tipo(old(log).events@, TipoEvento::Melhora) + conta_tipo(
                old(log).events@,
                TipoEvento::Estagnacao,
            ) + iteracoes_totais,
            max_iteracoes_sem_melhora == 0 ==> conta_tipo(
                log.events@,
                TipoEvento::MovPerturbacao,
            ) == conta_tipo(old(log).events@, TipoEvento::MovPerturbacao),
            log.enabled && 1 <= iteracoes_sem_melhora ==> exists|j: int|
                old(log).events@.len() <= j < log.events@.len() && tipo(
                    #[trigger] log.events@[j],
                ) == TipoEvento::Estagnacao && contagem_estagnacao(log.events@[j])
                    == iteracoes_sem_melhora,
            log.enabled == old(log).enabled,
            old(log).events@.is_prefix_of(log.events@),
            !log.enabled ==> log.events@ == old(log).events@,
            log.enabled ==> log.events@.len() > old(log).events@.len() && eh_snapshot(
                log.events@.last(),
            ),
        decreases melhor_makespan, max_iteracoes_sem_melhora - iteracoes_sem_melhora,
    {
        proof {
            assert((melhor0 - melhor_makespan) * (limite + 1) <= (100 * tam_n) * (limite + 1))
                by (nonlinear_arith)
                requires
                    0 <= melhor0 - melhor_makespan <= 100 * tam_n,
                    0 <= limite,
            ;
        }
        iteracoes_totais = iteracoes_totais + 1;
        let mut solucao_perturbada = clonar_solucao(&melhor_solucao);
        proof {
            lemma_mesma_solucao(melhor_solucao@, solucao_perturbada@);
            lemma_wf_cargas_ok(solucao_perturbada@);
        }
        if log.enabled {
            log.events.push(
                AnimationEvent::PerturbationStart {
                    iteration: #[verifier::truncate] (iteracoes_totais as u32),
                    num_moves: num_perturb,
                },
            );
            let estados = MachineState::from_maquinas(&solucao_perturbada);
            log.events.push(AnimationEvent::MachineSnapshot { machines: estados });
        }
        let ghost log_perturba = *log;
        perturbar(&mut solucao_perturbada, num_perturb, log);
        proof {
            lemma_prefixo_trans(old(log).events@, log_perturba.events@, log.events@);
        }
        if log.enabled {
            log.events.push(
                AnimationEvent::LocalSearchStart {
                    iteration: #[verifier::truncate] (iteracoes_totais as u32),
                },
            );
            proof {
                lemma_wf_cargas_ok(solucao_perturbada@);
            }
            let estados = MachineState::from_maquinas(&solucao_perturbada);
            log.events.push(AnimationEvent::MachineSnapshot { machines: estados });
        }
        let ghost log_busca = *log;
        aplicar_busca_local(&mut solucao_perturbada, log);
        proof {
            lemma_prefixo_trans(old(log).events@, log_busca.events@, log.events@);
            lemma_wf_cargas_ok(solucao_perturbada@);
        }
        let makespan_atual = ms_total(&solucao_perturbada);
        let ghost melhor_antes = melhor_makespan;
        let ghost sem_antes = iteracoes_sem_melhora;
        let (novo_melhor, novo_sem) = ils_aceitar(
            melhor_makespan,
            makespan_atual,
            iteracoes_sem_melhora,
        );
        if makespan_atual < melhor_makespan {
            let old_best = melhor_makespan;
            melhor_solucao = solucao_perturbada;
            if log.enabled {
                log.events.push(
                    AnimationEvent::BestSolutionUpdated {
                        iteration: #[verifier::truncate] (iteracoes_totais as u32),
                        old_best,
                        new_best: makespan_atual,
                    },
                );
                proof {
                    lemma_wf_cargas_ok(melhor_solucao@);
                }
                let estados = MachineState::from_maquinas(&melhor_solucao);
                log.events.push(AnimationEvent::MachineSnapshot { machines: estados });
            }
        } else {
            if log.enabled {
                let ghost antes_ni = log.events@;
                log.events.push(
                    AnimationEvent::NoImprovement {
                        iteration: #[verifier::truncate] (iteracoes_totais as u32),
                        stagnation_count: novo_sem,
                    },
                );
                proof {
                    lemma_wf_cargas_ok(melhor_solucao@);
                }
                let estados = MachineState::from_maquinas(&melhor_solucao);
                log.events.push(AnimationEvent::MachineSnapshot { machines: estados });
                proof {
                    assert(tipo(log.events@[antes_ni.len() as int]) == TipoEvento::Estagnacao
                        && contagem_estagnacao(log.events@[antes_ni.len() as int]) == novo_sem);
                }
            }
        }
        melhor_makespan = novo_melhor;
        iteracoes_sem_melhora = novo_sem;
        proof {
            if makespan_atual < melhor_antes {
                assert((melhor0 - melhor_antes + 1) * (limite + 1) == (melhor0 - melhor_antes) * (
                limite + 1) + (limite + 1)) by (nonlinear_arith);
                assert((melhor0 - melhor_antes + 1) * (limite + 1) <= (melhor0 - melhor_makespan)
                    * (limite + 1)) by (nonlinear_arith)
                    requires
                        melhor_makespan <= melhor_antes - 1,
                        0 <= limite,
                ;
            }
        }
    }
    proof {
        lemma_wf_cargas_ok(melhor_solucao@);
        lemma_carga_total_pos(melhor_solucao@);
        let i = choose|i: int|
            0 <= i < melhor_solucao@.len() && (#[trigger] melhor_solucao@[i]).carga() > 0;
        lemma_carga_max_ge(melhor_solucao@, i);
        lemma_total_le_max(melhor_solucao@);
        assert((melhor0 - melhor_makespan) * (limite + 1) <= (100 * tam_n) * (limite + 1))
            by (nonlinear_arith)
            requires
                0 <= melhor0 - melhor_makespan <= 100 * tam_n,
                0 <= limite,
        ;
    }
    let ghost log_fim = log.events@;
    if log.enabled {
        log.events.push(
            AnimationEvent::AlgorithmComplete {
                final_makespan: melhor_makespan,
                total_moves: #[verifier::truncate] (iteracoes_totais as u32),
            },
        );
        let estados = MachineState::from_maquinas(&melhor_solucao);
        log.events.push(AnimationEvent::MachineSnapshot { machines: estados });
        proof {
            if 1 <= max_iteracoes_sem_melhora {
                let j = choose|j: int|
                    old(log).events@.len() <= j < log_fim.len() && tipo(#[trigger] log_fim[j])
                        == TipoEvento::Estagnacao && contagem_estagnacao(log_fim[j])
                        == iteracoes_sem_melhora;
                assert(log.events@[j] == log_fim[j]);
            }
        }
    }
    Ok(
        RunResult {
            n_tarefas: tam_n,
            n_maquinas: tam_m,
            iteracoes: iteracoes_totais,
            makespan_inicial: ms_s,
            makespan_final: melhor_makespan,
            algoritmo: String::from_str("busca-local-iterada"),
        },
    )
}

/// Iterated local search without instrumentation.
pub fn busca_local_iterada(
    tam_m: usize,
    tam_n: usize,
    num_perturb: usize,
    max_iteracoes_sem_melhora: u32,
) -> (r: Result<RunResult, ConfigErro>)
    requires
        100 * tam_n <= u32::MAX,
        100 * tam_n * (max_iteracoes_sem_melhora + 1) + max_iteracoes_sem_melhora < usize::MAX,
    ensures
        tam_m == 0 ==> r == Err::<RunResult, ConfigErro>(ConfigErro::SemMaquinas),
        1 <= tam_m && tam_n == 0 ==> r == Err::<RunResult, ConfigErro>(ConfigErro::SemTarefas),
        1 <= tam_m && 1 <= tam_n ==> r is Ok,
        r matches Ok(res) ==> res.n_tarefas == tam_n && res.n_maquinas == tam_m
            && res.makespan_final <= res.makespan_inicial && tam_n <= res.makespan_inicial <= 100
            * tam_n && 1 <= res.makespan_final && res.makespan_final * tam_m
            >= res.makespan_inicial && (max_iteracoes_sem_melhora == 0 ==> res.iteracoes == 0)
            && res.iteracoes >= max_iteracoes_sem_melhora && res.iteracoes <= 100 * tam_n * (
        max_iteracoes_sem_melhora + 1) + max_iteracoes_sem_melhora && res.algoritmo@
            == "busca-local-iterada"@,
{
    let mut log = EventLog::new(false);
    busca_local_iterada_with_events(tam_m, tam_n, num_perturb, max_iteracoes_sem_melhora, &mut log)
}

} // verus!

