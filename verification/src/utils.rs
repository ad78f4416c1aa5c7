use vstd::prelude::*;

verus! {

/// Summary of one algorithm run, produced exactly once per run and never
/// mutated afterwards.  Wall-clock time and the floating-point run parameters
/// (replication factor, perturbation intensity) are measured and attached by
/// the caller that reports the run; this record carries the integral facts.
#[derive(Debug, Clone)]
pub struct RunResult {
    pub n_tarefas: usize,
    pub n_maquinas: usize,
    pub iteracoes: usize,
    pub makespan_inicial: u32,
    pub makespan_final: u32,
    pub algoritmo: String,
}

/// Rejected run configurations: the algorithms fail fast on these instead of
/// building a degenerate solution.
#[derive(Debug, Clone, Copy, PartialEq, Eq, Structural)]
pub enum ConfigErro {
    /// The run asked for zero machines.
    SemMaquinas,
    /// The run asked for zero tasks.
    SemTarefas,
}

} // verus!
