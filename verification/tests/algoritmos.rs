use busca_local::animation::{AnimationEvent, EventLog};
use busca_local::blm::{melhor_melhora, melhor_melhora_with_events, Maquina};
use busca_local::blnm::{
    busca_local_iterada, busca_local_iterada_with_events, clonar_solucao, ils_aceitar, perturbar,
};
use busca_local::utils::ConfigErro;

fn maquina(tarefas: Vec<u32>, pos: i32) -> Maquina {
    Maquina { tarefas, pos }
}

#[test]
fn melhor_melhora_resultado_coerente() {
    let res = melhor_melhora(3, 20).unwrap();
    assert_eq!(res.n_tarefas, 20);
    assert_eq!(res.n_maquinas, 3);
    assert_eq!(res.algoritmo, "busca-local-monotona-melhorada");
    assert!(res.makespan_inicial >= 20 && res.makespan_inicial <= 2000);
    assert!(res.makespan_final >= 1);
    assert!(res.makespan_final <= res.makespan_inicial);
    // pigeonhole: the best possible makespan is the average load
    assert!(res.makespan_final as usize * 3 >= res.makespan_inicial as usize);
    assert!(res.iteracoes <= 20);
}

#[test]
fn melhor_melhora_uma_maquina_nao_move() {
    // with a single machine the source is always the least loaded: no moves
    let res = melhor_melhora(1, 10).unwrap();
    assert_eq!(res.iteracoes, 0);
    assert_eq!(res.makespan_inicial, res.makespan_final);
}

#[test]
fn melhor_melhora_config_invalida() {
    assert_eq!(melhor_melhora(0, 10).unwrap_err(), ConfigErro::SemMaquinas);
    assert_eq!(melhor_melhora(3, 0).unwrap_err(), ConfigErro::SemTarefas);
}

#[test]
fn melhor_melhora_rastreia_eventos() {
    let mut log = EventLog::new(true);
    let res = melhor_melhora_with_events(2, 10, &mut log).unwrap();
    let gerados = log
        .events
        .iter()
        .filter(|e| matches!(e, AnimationEvent::TaskGenerated { .. }))
        .count();
    assert_eq!(gerados, 10);
    assert!(matches!(
        log.events.first(),
        Some(AnimationEvent::TaskGenerated { machine_id: 0, task_index: 0, .. })
    ));
    assert!(matches!(log.events.last(), Some(AnimationEvent::MachineSnapshot { .. })));
    let completo = log.events.iter().find_map(|e| match e {
        AnimationEvent::AlgorithmComplete { final_makespan, total_moves } => {
            Some((*final_makespan, *total_moves))
        }
        _ => None,
    });
    assert_eq!(completo, Some((res.makespan_final, res.iteracoes as u32)));
}

#[test]
fn melhor_melhora_log_desligado_fica_vazio() {
    let mut log = EventLog::new(false);
    let res = melhor_melhora_with_events(2, 10, &mut log);
    assert!(res.is_ok());
    assert!(log.events.is_empty());
}

#[test]
fn ils_resultado_coerente() {
    let res = busca_local_iterada(3, 20, 2, 5).unwrap();
    assert_eq!(res.n_tarefas, 20);
    assert_eq!(res.n_maquinas, 3);
    assert_eq!(res.algoritmo, "busca-local-iterada");
    assert!(res.iteracoes >= 5);
    assert!(res.makespan_final >= 1);
    assert!(res.makespan_final <= res.makespan_inicial);
}

#[test]
fn ils_estagnacao_zero_sem_perturbacao() {
    // a stagnation limit of 0 runs no perturbation round: the result is the
    // plain local search on the initial generation
    let res = busca_local_iterada(2, 12, 3, 0).unwrap();
    assert_eq!(res.iteracoes, 0);
    assert!(res.makespan_final <= res.makespan_inicial);
    let mut log = EventLog::new(true);
    let res2 = busca_local_iterada_with_events(2, 12, 3, 0, &mut log).unwrap();
    assert_eq!(res2.iteracoes, 0);
    assert!(!log.events.iter().any(|e| {
        matches!(
            e,
            AnimationEvent::PerturbationStart { .. } | AnimationEvent::PerturbationMove { .. }
        )
    }));
}

#[test]
fn ils_config_invalida() {
    assert_eq!(busca_local_iterada(0, 10, 1, 3).unwrap_err(), ConfigErro::SemMaquinas);
    assert_eq!(busca_local_iterada(4, 0, 1, 3).unwrap_err(), ConfigErro::SemTarefas);
}

#[test]
fn ils_rastreia_eventos() {
    let mut log = EventLog::new(true);
    let res = busca_local_iterada_with_events(2, 8, 1, 2, &mut log).unwrap();
    assert!(matches!(log.events.last(), Some(AnimationEvent::MachineSnapshot { .. })));
    let inicios = log
        .events
        .iter()
        .filter(|e| matches!(e, AnimationEvent::PerturbationStart { .. }))
        .count();
    assert_eq!(inicios, res.iteracoes);
    // every outer iteration ends with one acceptance event, and the run ends
    // once the stagnation counter reaches the limit
    let decisoes = log
        .events
        .iter()
        .filter(|e| {
            matches!(
                e,
                AnimationEvent::BestSolutionUpdated { .. } | AnimationEvent::NoImprovement { .. }
            )
        })
        .count();
    assert_eq!(decisoes, res.iteracoes);
    let ultimo_estagnado = log
        .events
        .iter()
        .rev()
        .find_map(|e| match e {
            AnimationEvent::NoImprovement { stagnation_count, .. } => Some(*stagnation_count),
            _ => None,
        });
    assert_eq!(ultimo_estagnado, Some(2));
    let completo = log
        .events
        .iter()
        .any(|e| matches!(e, AnimationEvent::AlgorithmComplete { .. }));
    assert!(completo);
}

#[test]
fn ils_aceitar_melhora_reseta() {
    assert_eq!(ils_aceitar(10, 8, 3), (8, 0));
}

#[test]
fn ils_aceitar_estagna_incrementa() {
    assert_eq!(ils_aceitar(10, 12, 3), (10, 4));
    assert_eq!(ils_aceitar(10, 10, 0), (10, 1));
}

#[test]
fn perturbar_conserva_carga_e_contagem() {
    let mut v = vec![
        maquina(vec![10, 20, 30], 2),
        maquina(vec![0, 0, 0], -1),
        maquina(vec![0, 0, 0], -1),
    ];
    let mut log = EventLog::new(false);
    perturbar(&mut v, 5, &mut log);
    let carga: u32 = v.iter().map(|m| m.ms_maquina()).sum();
    let contagem: i32 = v.iter().map(|m| m.pos + 1).sum();
    assert_eq!(carga, 60);
    assert_eq!(contagem, 3);
}

#[test]
fn perturbar_registra_movimentos() {
    let mut v = vec![maquina(vec![10, 20], 1), maquina(vec![0, 0], -1)];
    let mut log = EventLog::new(true);
    perturbar(&mut v, 3, &mut log);
    let movimentos = log
        .events
        .iter()
        .filter(|e| matches!(e, AnimationEvent::PerturbationMove { .. }))
        .count();
    assert_eq!(movimentos, 3);
    // every relocation is followed by a snapshot of the state it produced
    for (i, e) in log.events.iter().enumerate() {
        if matches!(e, AnimationEvent::PerturbationMove { .. }) {
            assert!(matches!(
                log.events.get(i + 1),
                Some(AnimationEvent::MachineSnapshot { .. })
            ));
        }
    }
    assert!(matches!(log.events.last(), Some(AnimationEvent::MachineSnapshot { .. })));
}

#[test]
fn clonar_solucao_copia_independente() {
    let v = vec![maquina(vec![10, 20], 1), maquina(vec![0, 0], -1)];
    let mut copia = clonar_solucao(&v);
    assert_eq!(copia.len(), 2);
    assert_eq!(copia[0].tarefas, v[0].tarefas);
    assert_eq!(copia[0].pos, v[0].pos);
    let mut log = EventLog::new(false);
    perturbar(&mut copia, 4, &mut log);
    // the original is untouched by mutations of the copy
    assert_eq!(v[0].tarefas, vec![10, 20]);
    assert_eq!(v[0].pos, 1);
    assert_eq!(v[1].pos, -1);
}
