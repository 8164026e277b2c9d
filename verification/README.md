# k8sdesk

The core of a small, safe Kubernetes desktop client, written in Verus:
every function of the library carries a contract that Verus proves.

- `src/parser.rs`: the restricted command language; forbidden tokens
  (`kubectl`, `--context`, `exec`, …) reject a line wherever they stand.
- `src/safety.rs`: the destructive-command classifier and one-shot,
  HMAC-bound confirmation tokens with a 30 second lifetime.
- `src/store.rs`: the cluster records, their validation and redaction, the
  AES-256-GCM envelope they are stored in, the order in which the master
  key is looked for, and what an unreadable store file comes to.
- `src/commands.rs`: form input, secret-preserving edits, kubeconfig import
  (auth plugins refused) and the confirmation gate.
- `src/executor.rs`: what each command asks of the cluster API, the plan of
  an apply (each non-null YAML document, forced into the active namespace),
  and how the answers are tabulated.
- `src/kube_client.rs`: connection settings built from a record alone, and
  the client cache.
- `src/dashboard.rs`: the search for the dashboard pod and its port, the
  token search, provisioning of the admin account, the auto-login page and
  the registry of running proxies.
- `src/laws.rs`: properties across operations (token lifetime and binding,
  store reads after writes, what the listing shows, the order of the
  searches, what an apply acts on).
- `src/crypto.rs`: the trusted calls into aes-gcm, hmac, base64, rand, uuid
  and the clock.

`app/` is the unverified shell: files, the OS keychain, the cluster API
calls, the local proxy and the command surface the frontend calls.
